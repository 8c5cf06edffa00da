//! An origin on an NFS mount: a local directory whose operations are retried on stale handles.
use vstd::prelude::*;

use crate::config::OriginType;
use crate::text::append_str;
use crate::types::OriginId;

verus! {

/// Retries on a stale handle when nothing else is configured.
pub const DEFAULT_MAX_RETRIES: u32 = 3;

/// First pause after a stale handle, in milliseconds.
pub const FIRST_STALE_DELAY_MS: u64 = 100;

/// An origin on an NFS mount.
#[derive(Debug, Clone)]
pub struct NfsOrigin {
    id: OriginId,
    mount_point: String,
    max_retries: u32,
    display_name: String,
}

impl NfsOrigin {
    /// An origin for the mount point, retrying three times, shown as `NFS: ` and the mount point.
    pub fn new(id: &str, mount_point: &str) -> (r: Self)
        ensures
            r.id_view() == id@,
            r.mount_view() == mount_point@,
            r.max_retries_view() == DEFAULT_MAX_RETRIES,
            r.display_view() == "NFS: "@ + mount_point@,
    {
        let mut display_name = "NFS: ".to_owned();
        append_str(&mut display_name, mount_point);
        NfsOrigin { id: OriginId::new(id), mount_point: mount_point.to_owned(), max_retries: DEFAULT_MAX_RETRIES, display_name }
    }

    /// The same origin with another number of retries.
    pub fn with_max_retries(self, retries: u32) -> (r: Self)
        ensures
            r.id_view() == self.id_view(),
            r.mount_view() == self.mount_view(),
            r.display_view() == self.display_view(),
            r.max_retries_view() == retries,
    {
        NfsOrigin { max_retries: retries, ..self }
    }

    pub closed spec fn id_view(&self) -> Seq<char> {
        self.id@
    }

    pub closed spec fn mount_view(&self) -> Seq<char> {
        self.mount_point@
    }

    pub closed spec fn max_retries_view(&self) -> u32 {
        self.max_retries
    }

    pub closed spec fn display_view(&self) -> Seq<char> {
        self.display_name@
    }

    pub fn id(&self) -> (r: &OriginId)
        ensures
            r@ == self.id_view(),
    {
        &self.id
    }

    /// The directory the mount is at.
    pub fn mount_point(&self) -> (r: &str)
        ensures
            r@ == self.mount_view(),
    {
        self.mount_point.as_str()
    }

    pub fn max_retries(&self) -> (r: u32)
        ensures
            r == self.max_retries_view(),
    {
        self.max_retries
    }

    /// The kind of origin: always NFS.
    pub fn origin_type(&self) -> (r: OriginType)
        ensures
            r == OriginType::Nfs,
    {
        OriginType::Nfs
    }

    pub fn display_name(&self) -> (r: &str)
        ensures
            r@ == self.display_view(),
    {
        self.display_name.as_str()
    }
}

/// How one try of an operation on the mount ended.
#[derive(Debug, Clone, Copy, PartialEq, Eq, Structural)]
pub enum TryOutcome {
    Success,
    /// The error was a stale file handle (`ESTALE`).
    StaleHandle,
    OtherError,
}

/// What to do after a try.
#[derive(Debug, Clone, Copy, PartialEq, Eq, Structural)]
pub enum StaleStep {
    /// Return what the try gave, value or error.
    Finish,
    /// Sleep this many milliseconds, then try again with the next delay, if tries are left.
    Retry { sleep_ms: u64, next_delay_ms: u64 },
}

/// After try number `attempt` (from 0): a success or another error ends the operation; a stale
/// handle sleeps for the delay and doubles it. Whether another try follows is `tries_left`.
pub fn stale_step(outcome: TryOutcome, delay_ms: u64) -> (r: StaleStep)
    requires
        delay_ms <= u64::MAX / 2,
    ensures
        outcome == TryOutcome::StaleHandle ==> r == (StaleStep::Retry { sleep_ms: delay_ms, next_delay_ms: (2 * delay_ms) as u64 }),
        outcome != TryOutcome::StaleHandle ==> r == StaleStep::Finish,
        pauses_after(outcome) == (r is Retry),
{
    match outcome {
        TryOutcome::StaleHandle => StaleStep::Retry { sleep_ms: delay_ms, next_delay_ms: delay_ms * 2 },
        _ => StaleStep::Finish,
    }
}

/// Whether a try that ended so is followed by a pause and another try (if tries are left).
pub open spec fn pauses_after(outcome: TryOutcome) -> bool {
    outcome == TryOutcome::StaleHandle
}

/// The course of an operation from try `k` on, when try `i` ends as `outcomes[i]`, tries are
/// numbered below `max_retries`, and the next pause is `delay` ms: the pauses it takes, and
/// the try whose result it returns, or `None` where the tries run out on stale handles. A
/// stale handle pauses for the delay and doubles it (`stale_step`); a try may run while its
/// number is below the retry count (`tries_left`).
pub open spec fn retry_course(outcomes: Seq<TryOutcome>, k: nat, max_retries: nat, delay: nat) -> (Seq<nat>, Option<nat>)
    decreases max_retries - k,
{
    if k >= max_retries {
        (Seq::empty(), None)
    } else if !pauses_after(outcomes[k as int]) {
        (Seq::empty(), Some(k))
    } else {
        let rest = retry_course(outcomes, k + 1, max_retries, 2 * delay);
        (seq![delay] + rest.0, rest.1)
    }
}

/// `100 * 2^k`: the pause after the stale try number `k`.
pub open spec fn stale_pause(k: nat) -> nat
    decreases k,
{
    if k == 0 {
        FIRST_STALE_DELAY_MS as nat
    } else {
        2 * stale_pause((k - 1) as nat)
    }
}

proof fn lemma_course_from(outcomes: Seq<TryOutcome>, k: nat, end: nat, max_retries: nat)
    requires
        k <= end <= max_retries,
        end <= outcomes.len(),
        forall|i: int| k <= i < end ==> #[trigger] pauses_after(outcomes[i]),
    ensures
        retry_course(outcomes, k, max_retries, stale_pause(k)).0.len() >= end - k,
        retry_course(outcomes, k, max_retries, stale_pause(k)) == ({
            let rest = retry_course(outcomes, end, max_retries, stale_pause(end));
            (Seq::new((end - k) as nat, |i: int| stale_pause((k + i) as nat)) + rest.0, rest.1)
        }),
    decreases end - k,
{
    if k < end {
        lemma_course_from(outcomes, k + 1, end, max_retries);
        assert(pauses_after(outcomes[k as int]));
        let rest = retry_course(outcomes, end, max_retries, stale_pause(end));
        let tail = Seq::new((end - (k + 1)) as nat, |i: int| stale_pause((k + 1 + i) as nat));
        let whole = Seq::new((end - k) as nat, |i: int| stale_pause((k + i) as nat));
        assert(whole =~= seq![stale_pause(k)] + tail);
        assert(seq![stale_pause(k)] + (tail + rest.0) =~= whole + rest.0);
    } else {
        let rest = retry_course(outcomes, end, max_retries, stale_pause(end));
        assert(Seq::new(0, |i: int| stale_pause((k + i) as nat)) + rest.0 =~= rest.0);
    }
}

/// An operation on an NFS origin whose every try meets a stale handle makes exactly
/// `max_retries` tries, pausing `100 * 2^k` ms after try `k`, and then fails as stale; with
/// no retries it makes no try at all.
pub proof fn law_stale_tries_run_out(outcomes: Seq<TryOutcome>, max_retries: nat)
    requires
        outcomes.len() >= max_retries,
        forall|i: int| 0 <= i < max_retries ==> #[trigger] outcomes[i] == TryOutcome::StaleHandle,
    ensures
        retry_course(outcomes, 0, max_retries, FIRST_STALE_DELAY_MS as nat) == (
            Seq::new(max_retries, |k: int| stale_pause(k as nat)),
            None::<nat>,
        ),
{
    assert forall|i: int| 0 <= i < max_retries implies #[trigger] pauses_after(outcomes[i]) by {
        assert(outcomes[i] == TryOutcome::StaleHandle);
    }
    lemma_course_from(outcomes, 0, max_retries, max_retries);
    let pauses = Seq::new(max_retries, |i: int| stale_pause((0 + i) as nat));
    assert(pauses + Seq::<nat>::empty() =~= Seq::new(max_retries, |k: int| stale_pause(k as nat)));
}

/// The first try that does not meet a stale handle ends the operation with its own result,
/// after one pause of `100 * 2^k` ms for each stale try `k` before it, where it comes within
/// the retry count.
pub proof fn law_first_other_outcome_ends(outcomes: Seq<TryOutcome>, max_retries: nat, j: nat)
    requires
        j < max_retries,
        j < outcomes.len(),
        outcomes[j as int] != TryOutcome::StaleHandle,
        forall|i: int| 0 <= i < j ==> #[trigger] outcomes[i] == TryOutcome::StaleHandle,
    ensures
        retry_course(outcomes, 0, max_retries, FIRST_STALE_DELAY_MS as nat) == (
            Seq::new(j, |k: int| stale_pause(k as nat)),
            Some(j),
        ),
{
    assert forall|i: int| 0 <= i < j implies #[trigger] pauses_after(outcomes[i]) by {
        assert(outcomes[i] == TryOutcome::StaleHandle);
    }
    lemma_course_from(outcomes, 0, j, max_retries);
    let pauses = Seq::new(j, |i: int| stale_pause((0 + i) as nat));
    assert(pauses + Seq::<nat>::empty() =~= Seq::new(j, |k: int| stale_pause(k as nat)));
}

/// Whether try number `attempt` (from 0) may run: the tries are numbered below the retry
/// count. When none may run any more after stale handles, the operation fails as stale.
pub fn tries_left(attempt: u32, max_retries: u32) -> (r: bool)
    ensures
        r == (attempt < max_retries),
{
    attempt < max_retries
}

} // verus!
