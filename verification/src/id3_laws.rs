//! What reading a tag gives back of the frames written into it.
use vstd::prelude::*;

use crate::flac::{compilation_text, date_text, gain_opt, opt_view, peak_opt};
use crate::id3::{eng, first_comment, first_lyrics, frame_text, insert_frame, same_slot, txxx, user_text, without_first, Id3Frame};
use crate::id3v2::{build_frames, first_slash, id3_extracted_from, map_text, note, pair_of, pair_opt, pair_text, split_pair, text, text_of, user};
use crate::id3::lofty_genre;
use crate::flac::{gain_fits, peak_fits, rounded_opt};
use crate::numtext::{all_digits, decimal};
use crate::types::AudioMeta;

verus! {

pub open spec fn comm() -> Seq<char> {
    seq!['C', 'O', 'M', 'M']
}

pub open spec fn uslt() -> Seq<char> {
    seq!['U', 'S', 'L', 'T']
}

/// An id of a plain text frame: none of `TXXX`, `COMM`, `USLT`.
pub open spec fn plain_id(id: Seq<char>) -> bool {
    id != txxx() && id != comm() && id != uslt()
}

/// A frame in the slot its id calls for: user text under `TXXX`, English comments and
/// lyrics with an empty description, plain text frames without a description.
pub open spec fn canon(f: Id3Frame) -> bool {
    if f.1 == txxx() {
        f.0 == 1
    } else if f.1 == comm() {
        f.0 == 2 && f.2 == eng()
    } else if f.1 == uslt() {
        f.0 == 3 && f.2 == eng()
    } else {
        f.0 == 0 && f.2 == Seq::<char>::empty()
    }
}

/// Every frame in its slot, and no two frames in the same slot.
pub open spec fn well_slotted(fs: Seq<Id3Frame>) -> bool {
    &&& forall|i: int| 0 <= i < fs.len() ==> canon(#[trigger] fs[i])
    &&& forall|i: int, j: int| 0 <= i < j < fs.len() ==> !same_slot(#[trigger] fs[i], #[trigger] fs[j])
}

proof fn lemma_ws_rest(fs: Seq<Id3Frame>)
    requires
        well_slotted(fs),
        fs.len() > 0,
    ensures
        well_slotted(fs.drop_first()),
{
    let rest = fs.drop_first();
    assert forall|i: int| 0 <= i < rest.len() implies canon(#[trigger] rest[i]) by {
        assert(rest[i] == fs[i + 1]);
    }
    assert forall|i: int, j: int| 0 <= i < j < rest.len() implies !same_slot(#[trigger] rest[i], #[trigger] rest[j]) by {
        assert(rest[i] == fs[i + 1]);
        assert(rest[j] == fs[j + 1]);
    }
}

/// Dropping the frame in the slot of `f` leaves a well-slotted list with nothing in that
/// slot, taken from the original frames, and changes no reader that does not look at it.
proof fn lemma_without_first(fs: Seq<Id3Frame>, f: Id3Frame)
    requires
        well_slotted(fs),
        canon(f),
    ensures
        well_slotted(without_first(fs, f)),
        forall|i: int| 0 <= i < without_first(fs, f).len() ==> !same_slot(#[trigger] without_first(fs, f)[i], f),
        forall|i: int| 0 <= i < without_first(fs, f).len() ==> exists|j: int| 0 <= j < fs.len() && #[trigger] without_first(fs, f)[i] == fs[j],
        forall|y: Seq<char>| y != f.1 ==> #[trigger] frame_text(without_first(fs, f), y) == frame_text(fs, y),
        forall|d: Seq<char>| !(f.0 == 1 && f.2 == d) ==> #[trigger] user_text(without_first(fs, f), d) == user_text(fs, d),
        f.0 != 2 ==> first_comment(without_first(fs, f)) == first_comment(fs),
        f.0 != 3 ==> first_lyrics(without_first(fs, f)) == first_lyrics(fs),
    decreases fs.len(),
{
    if fs.len() == 0 {
        return;
    }
    let rest = fs.drop_first();
    lemma_ws_rest(fs);
    if same_slot(fs[0], f) {
        assert(without_first(fs, f) == rest);
        assert forall|i: int| 0 <= i < rest.len() implies !same_slot(#[trigger] rest[i], f) by {
            assert(rest[i] == fs[i + 1]);
            assert(!same_slot(fs[0], fs[i + 1]));
        }
        assert forall|i: int| 0 <= i < rest.len() implies exists|j: int| 0 <= j < fs.len() && #[trigger] rest[i] == fs[j] by {
            assert(rest[i] == fs[i + 1]);
        }
        assert forall|y: Seq<char>| y != f.1 implies #[trigger] frame_text(without_first(fs, f), y) == frame_text(fs, y) by {
            assert(fs[0].1 == f.1);
            assert(frame_text(fs, y) == frame_text(rest, y));
        }
        assert forall|d: Seq<char>| !(f.0 == 1 && f.2 == d) implies #[trigger] user_text(without_first(fs, f), d) == user_text(fs, d) by {
            assert(user_text(fs, d) == user_text(rest, d));
        }
    } else {
        lemma_without_first(rest, f);
        let w0 = without_first(rest, f);
        let w = seq![fs[0]] + w0;
        assert(without_first(fs, f) == w);
        assert(w[0] == fs[0]);
        assert(w.drop_first() =~= w0);
        assert forall|i: int| 0 <= i < w.len() implies exists|j: int| 0 <= j < fs.len() && #[trigger] w[i] == fs[j] by {
            if i == 0 {
                assert(w[0] == fs[0]);
            } else {
                assert(w[i] == w0[i - 1]);
                let k = choose|k: int| 0 <= k < rest.len() && #[trigger] w0[i - 1] == rest[k];
                assert(rest[k] == fs[k + 1]);
            }
        }
        assert forall|i: int| 0 <= i < w.len() implies canon(#[trigger] w[i]) by {
            if i > 0 {
                assert(w[i] == w0[i - 1]);
            }
        }
        assert forall|i: int, j: int| 0 <= i < j < w.len() implies !same_slot(#[trigger] w[i], #[trigger] w[j]) by {
            assert(w[j] == w0[j - 1]);
            if i == 0 {
                let k = choose|k: int| 0 <= k < rest.len() && #[trigger] w0[j - 1] == rest[k];
                assert(rest[k] == fs[k + 1]);
                assert(!same_slot(fs[0], fs[k + 1]));
            } else {
                assert(w[i] == w0[i - 1]);
            }
        }
        assert forall|i: int| 0 <= i < w.len() implies !same_slot(#[trigger] w[i], f) by {
            if i > 0 {
                assert(w[i] == w0[i - 1]);
            }
        }
        assert forall|y: Seq<char>| y != f.1 implies #[trigger] frame_text(without_first(fs, f), y) == frame_text(fs, y) by {
            if fs[0].1 != y {
                assert(frame_text(w, y) == frame_text(w0, y));
                assert(frame_text(fs, y) == frame_text(rest, y));
            }
        }
        assert forall|d: Seq<char>| !(f.0 == 1 && f.2 == d) implies #[trigger] user_text(without_first(fs, f), d) == user_text(fs, d) by {
            if !(fs[0].1 == txxx() && fs[0].0 == 1 && fs[0].2 == d) {
                assert(user_text(w, d) == user_text(w0, d));
                assert(user_text(fs, d) == user_text(rest, d));
            }
        }
    }
}

/// Appending a frame changes no reader that does not look at it, and a reader that finds
/// nothing before it finds the new frame.
proof fn lemma_push_reads(s: Seq<Id3Frame>, f: Id3Frame)
    ensures
        forall|y: Seq<char>| y != f.1 ==> #[trigger] frame_text(s.push(f), y) == frame_text(s, y),
        (forall|i: int| 0 <= i < s.len() ==> (#[trigger] s[i]).1 != f.1) && f.0 == 0 ==> frame_text(s.push(f), f.1) == Some(f.3),
        forall|d: Seq<char>| !(f.1 == txxx() && f.0 == 1 && f.2 == d) ==> #[trigger] user_text(s.push(f), d) == user_text(s, d),
        (forall|i: int| 0 <= i < s.len() ==> !((#[trigger] s[i]).1 == txxx() && s[i].0 == 1 && s[i].2 == f.2)) && f.1 == txxx() && f.0 == 1
            ==> user_text(s.push(f), f.2) == Some(f.3),
        f.0 != 2 ==> first_comment(s.push(f)) == first_comment(s),
        (forall|i: int| 0 <= i < s.len() ==> !((#[trigger] s[i]).0 == 2 && s[i].2.len() == 3)) && f.0 == 2 && f.2.len() == 3
            ==> first_comment(s.push(f)) == Some(f.3),
        f.0 != 3 ==> first_lyrics(s.push(f)) == first_lyrics(s),
        (forall|i: int| 0 <= i < s.len() ==> (#[trigger] s[i]).0 != 3) && f.0 == 3 ==> first_lyrics(s.push(f)) == Some(f.3),
    decreases s.len(),
{
    let p = s.push(f);
    if s.len() == 0 {
        assert(p[0] == f);
        assert(p.drop_first() =~= Seq::<Id3Frame>::empty());
        assert forall|y: Seq<char>| y != f.1 implies #[trigger] frame_text(s.push(f), y) == frame_text(s, y) by {
            assert(frame_text(p, y) == frame_text(p.drop_first(), y));
        }
        assert forall|d: Seq<char>| !(f.1 == txxx() && f.0 == 1 && f.2 == d) implies #[trigger] user_text(s.push(f), d) == user_text(s, d) by {
            assert(user_text(p, d) == user_text(p.drop_first(), d));
        }
        if f.0 != 2 {
            assert(first_comment(p) == first_comment(p.drop_first()));
        }
        if f.0 != 3 {
            assert(first_lyrics(p) == first_lyrics(p.drop_first()));
        }
    } else {
        let rest = s.drop_first();
        lemma_push_reads(rest, f);
        assert(p[0] == s[0]);
        assert(p.drop_first() =~= rest.push(f));
        assert((forall|i: int| 0 <= i < s.len() ==> (#[trigger] s[i]).1 != f.1) ==> (forall|i: int| 0 <= i < rest.len() ==> (#[trigger] rest[i]).1 != f.1)) by {
            assert forall|i: int| 0 <= i < rest.len() implies rest[i] == s[i + 1] by {}
        }
        assert((forall|i: int| 0 <= i < s.len() ==> !((#[trigger] s[i]).1 == txxx() && s[i].0 == 1 && s[i].2 == f.2)) ==> (forall|i: int| 0 <= i < rest.len() ==> !((#[trigger] rest[i]).1 == txxx() && rest[i].0 == 1 && rest[i].2 == f.2))) by {
            assert forall|i: int| 0 <= i < rest.len() implies rest[i] == s[i + 1] by {}
        }
        assert((forall|i: int| 0 <= i < s.len() ==> !((#[trigger] s[i]).0 == 2 && s[i].2.len() == 3)) ==> (forall|i: int| 0 <= i < rest.len() ==> !((#[trigger] rest[i]).0 == 2 && rest[i].2.len() == 3))) by {
            assert forall|i: int| 0 <= i < rest.len() implies rest[i] == s[i + 1] by {}
        }
        assert((forall|i: int| 0 <= i < s.len() ==> (#[trigger] s[i]).0 != 3) ==> (forall|i: int| 0 <= i < rest.len() ==> (#[trigger] rest[i]).0 != 3)) by {
            assert forall|i: int| 0 <= i < rest.len() implies rest[i] == s[i + 1] by {}
        }
        assert forall|y: Seq<char>| y != f.1 implies #[trigger] frame_text(s.push(f), y) == frame_text(s, y) by {
            if s[0].1 != y {
                assert(frame_text(p, y) == frame_text(rest.push(f), y));
                assert(frame_text(s, y) == frame_text(rest, y));
            }
        }
        assert forall|d: Seq<char>| !(f.1 == txxx() && f.0 == 1 && f.2 == d) implies #[trigger] user_text(s.push(f), d) == user_text(s, d) by {
            if !(s[0].1 == txxx() && s[0].0 == 1 && s[0].2 == d) {
                assert(user_text(p, d) == user_text(rest.push(f), d));
                assert(user_text(s, d) == user_text(rest, d));
            }
        }
        if !(s[0].0 == 2 && s[0].2.len() == 3) {
            assert(first_comment(p) == first_comment(rest.push(f)));
            assert(first_comment(s) == first_comment(rest));
        }
        if s[0].0 != 3 {
            assert(first_lyrics(p) == first_lyrics(rest.push(f)));
            assert(first_lyrics(s) == first_lyrics(rest));
        }
    }
}

/// One insertion into a well-slotted tag: the tag stays well-slotted, the reader of the
/// new frame's slot finds the new frame, and every other reader is unchanged.
pub proof fn lemma_insert(fs: Seq<Id3Frame>, f: Id3Frame)
    requires
        well_slotted(fs),
        canon(f),
    ensures
        well_slotted(insert_frame(fs, f)),
        forall|y: Seq<char>| y != f.1 ==> #[trigger] frame_text(insert_frame(fs, f), y) == frame_text(fs, y),
        plain_id(f.1) ==> frame_text(insert_frame(fs, f), f.1) == Some(f.3),
        forall|d: Seq<char>| !(f.0 == 1 && f.2 == d) ==> #[trigger] user_text(insert_frame(fs, f), d) == user_text(fs, d),
        f.0 == 1 ==> user_text(insert_frame(fs, f), f.2) == Some(f.3),
        f.0 != 2 ==> first_comment(insert_frame(fs, f)) == first_comment(fs),
        f.0 == 2 ==> first_comment(insert_frame(fs, f)) == Some(f.3),
        f.0 != 3 ==> first_lyrics(insert_frame(fs, f)) == first_lyrics(fs),
        f.0 == 3 ==> first_lyrics(insert_frame(fs, f)) == Some(f.3),
{
    lemma_without_first(fs, f);
    let w = without_first(fs, f);
    lemma_push_reads(w, f);
    let ins = w.push(f);
    assert(insert_frame(fs, f) == ins);
    assert forall|i: int| 0 <= i < ins.len() implies canon(#[trigger] ins[i]) by {
        if i < w.len() {
            assert(ins[i] == w[i]);
        }
    }
    assert forall|i: int, j: int| 0 <= i < j < ins.len() implies !same_slot(#[trigger] ins[i], #[trigger] ins[j]) by {
        assert(ins[i] == w[i]);
        if j < w.len() {
            assert(ins[j] == w[j]);
        }
    }
    if plain_id(f.1) {
        assert forall|i: int| 0 <= i < w.len() implies (#[trigger] w[i]).1 != f.1 by {
            if w[i].1 == f.1 {
                assert(canon(w[i]));
                assert(same_slot(w[i], f));
            }
        }
    }
    if f.0 == 1 {
        assert forall|i: int| 0 <= i < w.len() implies !((#[trigger] w[i]).1 == txxx() && w[i].0 == 1 && w[i].2 == f.2) by {
            if w[i].1 == txxx() && w[i].0 == 1 && w[i].2 == f.2 {
                assert(same_slot(w[i], f));
            }
        }
    }
    if f.0 == 2 {
        assert(eng().len() == 3);
        assert forall|i: int| 0 <= i < w.len() implies !((#[trigger] w[i]).0 == 2 && w[i].2.len() == 3) by {
            if w[i].0 == 2 {
                assert(canon(w[i]));
                assert(same_slot(w[i], f));
            }
        }
    }
    if f.0 == 3 {
        assert forall|i: int| 0 <= i < w.len() implies (#[trigger] w[i]).0 != 3 by {
            if w[i].0 == 3 {
                assert(canon(w[i]));
                assert(same_slot(w[i], f));
            }
        }
    }
}

/// How each step of building a tag acts on the readers of a well-slotted tag.
proof fn lemma_steps()
    ensures
        forall|fs: Seq<Id3Frame>, id: Seq<char>, v: Option<String>| #[trigger] text(fs, id, v) == text_of(fs, id, opt_view(v)),
        forall|fs: Seq<Id3Frame>, id: Seq<char>, v: Option<Seq<char>>|
            well_slotted(fs) && plain_id(id) ==> #[trigger] well_slotted(text_of(fs, id, v)),
        forall|fs: Seq<Id3Frame>, id: Seq<char>, v: Option<Seq<char>>, y: Seq<char>|
            well_slotted(fs) && plain_id(id) && plain_id(y) ==> #[trigger] frame_text(text_of(fs, id, v), y) == (if y == id && v is Some {
                v
            } else {
                frame_text(fs, y)
            }),
        forall|fs: Seq<Id3Frame>, id: Seq<char>, v: Option<Seq<char>>, d: Seq<char>|
            well_slotted(fs) && plain_id(id) ==> #[trigger] user_text(text_of(fs, id, v), d) == user_text(fs, d),
        forall|fs: Seq<Id3Frame>, id: Seq<char>, v: Option<Seq<char>>|
            well_slotted(fs) && plain_id(id) ==> #[trigger] first_comment(text_of(fs, id, v)) == first_comment(fs),
        forall|fs: Seq<Id3Frame>, id: Seq<char>, v: Option<Seq<char>>|
            well_slotted(fs) && plain_id(id) ==> #[trigger] first_lyrics(text_of(fs, id, v)) == first_lyrics(fs),
        forall|fs: Seq<Id3Frame>, desc: &str, v: Option<Seq<char>>| well_slotted(fs) ==> #[trigger] well_slotted(user(fs, desc, v)),
        forall|fs: Seq<Id3Frame>, desc: &str, v: Option<Seq<char>>, y: Seq<char>|
            well_slotted(fs) && plain_id(y) ==> #[trigger] frame_text(user(fs, desc, v), y) == frame_text(fs, y),
        forall|fs: Seq<Id3Frame>, desc: &str, v: Option<Seq<char>>, d: Seq<char>|
            well_slotted(fs) ==> #[trigger] user_text(user(fs, desc, v), d) == (if d == desc@ && v is Some {
                v
            } else {
                user_text(fs, d)
            }),
        forall|fs: Seq<Id3Frame>, desc: &str, v: Option<Seq<char>>| well_slotted(fs) ==> #[trigger] first_comment(user(fs, desc, v)) == first_comment(fs),
        forall|fs: Seq<Id3Frame>, desc: &str, v: Option<Seq<char>>| well_slotted(fs) ==> #[trigger] first_lyrics(user(fs, desc, v)) == first_lyrics(fs),
        forall|fs: Seq<Id3Frame>, kind: u8, id: Seq<char>, v: Option<String>|
            well_slotted(fs) && ((kind == 2 && id == comm()) || (kind == 3 && id == uslt())) ==> #[trigger] well_slotted(note(fs, kind, id, v)),
        forall|fs: Seq<Id3Frame>, kind: u8, id: Seq<char>, v: Option<String>, y: Seq<char>|
            well_slotted(fs) && ((kind == 2 && id == comm()) || (kind == 3 && id == uslt())) && plain_id(y)
                ==> #[trigger] frame_text(note(fs, kind, id, v), y) == frame_text(fs, y),
        forall|fs: Seq<Id3Frame>, kind: u8, id: Seq<char>, v: Option<String>, d: Seq<char>|
            well_slotted(fs) && ((kind == 2 && id == comm()) || (kind == 3 && id == uslt()))
                ==> #[trigger] user_text(note(fs, kind, id, v), d) == user_text(fs, d),
        forall|fs: Seq<Id3Frame>, kind: u8, id: Seq<char>, v: Option<String>|
            well_slotted(fs) && ((kind == 2 && id == comm()) || (kind == 3 && id == uslt()))
                ==> #[trigger] first_comment(note(fs, kind, id, v)) == (if kind == 2 && v is Some { opt_view(v) } else { first_comment(fs) }),
        forall|fs: Seq<Id3Frame>, kind: u8, id: Seq<char>, v: Option<String>|
            well_slotted(fs) && ((kind == 2 && id == comm()) || (kind == 3 && id == uslt()))
                ==> #[trigger] first_lyrics(note(fs, kind, id, v)) == (if kind == 3 && v is Some { opt_view(v) } else { first_lyrics(fs) }),
{
    reveal(text);
    reveal(text_of);
    reveal(user);
    reveal(note);
    assert forall|fs: Seq<Id3Frame>, id: Seq<char>, v: Option<Seq<char>>|
        well_slotted(fs) && plain_id(id) implies #[trigger] well_slotted(text_of(fs, id, v)) by {
        if let Some(x) = v {
            lemma_insert(fs, (0u8, id, Seq::empty(), x));
        }
    }
    assert forall|fs: Seq<Id3Frame>, id: Seq<char>, v: Option<Seq<char>>, y: Seq<char>|
        well_slotted(fs) && plain_id(id) && plain_id(y) implies #[trigger] frame_text(text_of(fs, id, v), y) == (if y == id && v is Some {
            v
        } else {
            frame_text(fs, y)
        }) by {
        if let Some(x) = v {
            lemma_insert(fs, (0u8, id, Seq::empty(), x));
        }
    }
    assert forall|fs: Seq<Id3Frame>, id: Seq<char>, v: Option<Seq<char>>, d: Seq<char>|
        well_slotted(fs) && plain_id(id) implies #[trigger] user_text(text_of(fs, id, v), d) == user_text(fs, d) by {
        if let Some(x) = v {
            lemma_insert(fs, (0u8, id, Seq::empty(), x));
        }
    }
    assert forall|fs: Seq<Id3Frame>, id: Seq<char>, v: Option<Seq<char>>|
        well_slotted(fs) && plain_id(id) implies #[trigger] first_comment(text_of(fs, id, v)) == first_comment(fs) by {
        if let Some(x) = v {
            lemma_insert(fs, (0u8, id, Seq::empty(), x));
        }
    }
    assert forall|fs: Seq<Id3Frame>, id: Seq<char>, v: Option<Seq<char>>|
        well_slotted(fs) && plain_id(id) implies #[trigger] first_lyrics(text_of(fs, id, v)) == first_lyrics(fs) by {
        if let Some(x) = v {
            lemma_insert(fs, (0u8, id, Seq::empty(), x));
        }
    }
    assert forall|fs: Seq<Id3Frame>, desc: &str, v: Option<Seq<char>>| well_slotted(fs) implies #[trigger] well_slotted(user(fs, desc, v)) by {
        if let Some(x) = v {
            lemma_insert(fs, (1u8, txxx(), desc@, x));
        }
    }
    assert forall|fs: Seq<Id3Frame>, desc: &str, v: Option<Seq<char>>| well_slotted(fs) implies #[trigger] first_comment(user(fs, desc, v)) == first_comment(fs) by {
        if let Some(x) = v {
            lemma_insert(fs, (1u8, txxx(), desc@, x));
        }
    }
    assert forall|fs: Seq<Id3Frame>, desc: &str, v: Option<Seq<char>>| well_slotted(fs) implies #[trigger] first_lyrics(user(fs, desc, v)) == first_lyrics(fs) by {
        if let Some(x) = v {
            lemma_insert(fs, (1u8, txxx(), desc@, x));
        }
    }
    assert forall|fs: Seq<Id3Frame>, desc: &str, v: Option<Seq<char>>, y: Seq<char>|
        well_slotted(fs) && plain_id(y) implies #[trigger] frame_text(user(fs, desc, v), y) == frame_text(fs, y) by {
        if let Some(x) = v {
            lemma_insert(fs, (1u8, txxx(), desc@, x));
        }
    }
    assert forall|fs: Seq<Id3Frame>, desc: &str, v: Option<Seq<char>>, d: Seq<char>|
        well_slotted(fs) implies #[trigger] user_text(user(fs, desc, v), d) == (if d == desc@ && v is Some {
            v
        } else {
            user_text(fs, d)
        }) by {
        if let Some(x) = v {
            lemma_insert(fs, (1u8, txxx(), desc@, x));
        }
    }
    assert forall|fs: Seq<Id3Frame>, kind: u8, id: Seq<char>, v: Option<String>|
        well_slotted(fs) && ((kind == 2 && id == comm()) || (kind == 3 && id == uslt())) implies #[trigger] well_slotted(note(fs, kind, id, v)) by {
        if let Some(x) = v {
            assert(comm() != txxx() && uslt() != txxx() && uslt() != comm()) by {
                assert(comm()[0] != txxx()[0]);
                assert(uslt()[0] != txxx()[0]);
                assert(uslt()[0] != comm()[0]);
            }
            lemma_insert(fs, (kind, id, eng(), x@));
        }
    }
    assert forall|fs: Seq<Id3Frame>, kind: u8, id: Seq<char>, v: Option<String>|
        well_slotted(fs) && ((kind == 2 && id == comm()) || (kind == 3 && id == uslt())) implies #[trigger] first_comment(note(fs, kind, id, v)) == (if kind == 2 && v is Some { opt_view(v) } else { first_comment(fs) }) by {
        if let Some(x) = v {
            assert(comm() != txxx() && uslt() != txxx() && uslt() != comm()) by {
                assert(comm()[0] != txxx()[0]);
                assert(uslt()[0] != txxx()[0]);
                assert(uslt()[0] != comm()[0]);
            }
            lemma_insert(fs, (kind, id, eng(), x@));
        }
    }
    assert forall|fs: Seq<Id3Frame>, kind: u8, id: Seq<char>, v: Option<String>|
        well_slotted(fs) && ((kind == 2 && id == comm()) || (kind == 3 && id == uslt())) implies #[trigger] first_lyrics(note(fs, kind, id, v)) == (if kind == 3 && v is Some { opt_view(v) } else { first_lyrics(fs) }) by {
        if let Some(x) = v {
            assert(comm() != txxx() && uslt() != txxx() && uslt() != comm()) by {
                assert(comm()[0] != txxx()[0]);
                assert(uslt()[0] != txxx()[0]);
                assert(uslt()[0] != comm()[0]);
            }
            lemma_insert(fs, (kind, id, eng(), x@));
        }
    }
    assert forall|fs: Seq<Id3Frame>, kind: u8, id: Seq<char>, v: Option<String>, y: Seq<char>|
        well_slotted(fs) && ((kind == 2 && id == comm()) || (kind == 3 && id == uslt())) && plain_id(y)
            implies #[trigger] frame_text(note(fs, kind, id, v), y) == frame_text(fs, y) by {
        if let Some(x) = v {
            assert(comm() != txxx() && uslt() != txxx() && uslt() != comm()) by {
                assert(comm()[0] != txxx()[0]);
                assert(uslt()[0] != txxx()[0]);
                assert(uslt()[0] != comm()[0]);
            }
            lemma_insert(fs, (kind, id, eng(), x@));
        }
    }
    assert forall|fs: Seq<Id3Frame>, kind: u8, id: Seq<char>, v: Option<String>, d: Seq<char>|
        well_slotted(fs) && ((kind == 2 && id == comm()) || (kind == 3 && id == uslt()))
            implies #[trigger] user_text(note(fs, kind, id, v), d) == user_text(fs, d) by {
        if let Some(x) = v {
            assert(comm() != txxx() && uslt() != txxx() && uslt() != comm()) by {
                assert(comm()[0] != txxx()[0]);
                assert(uslt()[0] != txxx()[0]);
                assert(uslt()[0] != comm()[0]);
            }
            lemma_insert(fs, (kind, id, eng(), x@));
        }
    }
}

/// Four characters read as one number, so that different ids are seen to differ.
pub open spec fn code4(s: Seq<char>) -> int {
    (s[0] as int) * 16777216 + (s[1] as int) * 65536 + (s[2] as int) * 256 + (s[3] as int)
}

/// The length and four characters of a description read as one number.
pub open spec fn code_desc(s: Seq<char>) -> int {
    (s.len() as int) * 4294967296 + (s[0] as int) * 16777216 + (s[11] as int) * 65536 + (s[17] as int) * 256 + (s[19] as int)
}

/// The ids and descriptions a tag is built with: the text ids are plain and pairwise
/// different, and so are the descriptions of user text frames.
proof fn lemma_ids()
    ensures
        plain_id("TIT2"@),
        plain_id("TPE1"@),
        plain_id("TALB"@),
        plain_id("TPE2"@),
        plain_id("TDRC"@),
        plain_id("TCON"@),
        plain_id("TRCK"@),
        plain_id("TPOS"@),
        plain_id("TCOM"@),
        plain_id("TCOP"@),
        plain_id("TCMP"@),
        plain_id("TSOT"@),
        plain_id("TSOP"@),
        plain_id("TSOA"@),
        plain_id("TSO2"@),
        plain_id("TSSE"@),
        code4("TIT2"@) == 1414091826,
        code4("TPE1"@) == 1414546737,
        code4("TALB"@) == 1413565506,
        code4("TPE2"@) == 1414546738,
        code4("TDRC"@) == 1413763651,
        code4("TCON"@) == 1413697358,
        code4("TRCK"@) == 1414677323,
        code4("TPOS"@) == 1414549331,
        code4("TCOM"@) == 1413697357,
        code4("TCOP"@) == 1413697360,
        code4("TCMP"@) == 1413696848,
        code4("TSOT"@) == 1414745940,
        code4("TSOP"@) == 1414745936,
        code4("TSOA"@) == 1414745921,
        code4("TSO2"@) == 1414745906,
        code4("TSSE"@) == 1414746949,
        "COMM"@ == comm(),
        "USLT"@ == uslt(),
        code_desc("MusicBrainz Recording Id"@) == 104373183598,
        code_desc("MusicBrainz Album Id"@) == 87193296996,
        code_desc("MusicBrainz Artist Id"@) == 91488285769,
        code_desc("MusicBrainz Album Artist Id"@) == 117258068082,
        code_desc("MusicBrainz Release Group Id"@) == 121553056544,
        code_desc("REPLAYGAIN_TRACK_GAIN"@) == 91575568201,
        code_desc("REPLAYGAIN_TRACK_PEAK"@) == 91575570497,
        code_desc("REPLAYGAIN_ALBUM_GAIN"@) == 91574323017,
        code_desc("REPLAYGAIN_ALBUM_PEAK"@) == 91574325313,
{
    reveal_strlit("TIT2");
    reveal_strlit("TPE1");
    reveal_strlit("TALB");
    reveal_strlit("TPE2");
    reveal_strlit("TDRC");
    reveal_strlit("TCON");
    reveal_strlit("TRCK");
    reveal_strlit("TPOS");
    reveal_strlit("TCOM");
    reveal_strlit("TCOP");
    reveal_strlit("TCMP");
    reveal_strlit("TSOT");
    reveal_strlit("TSOP");
    reveal_strlit("TSOA");
    reveal_strlit("TSO2");
    reveal_strlit("TSSE");
    reveal_strlit("COMM");
    reveal_strlit("USLT");
    reveal_strlit("MusicBrainz Recording Id");
    reveal_strlit("MusicBrainz Album Id");
    reveal_strlit("MusicBrainz Artist Id");
    reveal_strlit("MusicBrainz Album Artist Id");
    reveal_strlit("MusicBrainz Release Group Id");
    reveal_strlit("REPLAYGAIN_TRACK_GAIN");
    reveal_strlit("REPLAYGAIN_TRACK_PEAK");
    reveal_strlit("REPLAYGAIN_ALBUM_GAIN");
    reveal_strlit("REPLAYGAIN_ALBUM_PEAK");
    assert("COMM"@ =~= comm());
    assert("USLT"@ =~= uslt());
    assert(code4(txxx()) == 1415075928);
    assert(code4(comm()) == 1129270605);
    assert(code4(uslt()) == 1431522388);
}

proof fn lemma_read_title(m: AudioMeta)
    ensures
        frame_text(build_frames(m), "TIT2"@) == opt_view(m.title),
{
    lemma_ids();
    lemma_steps();
    assert(well_slotted(Seq::<Id3Frame>::empty()));
}

proof fn lemma_read_artist(m: AudioMeta)
    ensures
        frame_text(build_frames(m), "TPE1"@) == opt_view(m.artist),
{
    lemma_ids();
    lemma_steps();
    assert(well_slotted(Seq::<Id3Frame>::empty()));
}

proof fn lemma_read_album(m: AudioMeta)
    ensures
        frame_text(build_frames(m), "TALB"@) == opt_view(m.album),
{
    lemma_ids();
    lemma_steps();
    assert(well_slotted(Seq::<Id3Frame>::empty()));
}

proof fn lemma_read_album_artist(m: AudioMeta)
    ensures
        frame_text(build_frames(m), "TPE2"@) == opt_view(m.album_artist),
{
    lemma_ids();
    lemma_steps();
    assert(well_slotted(Seq::<Id3Frame>::empty()));
}

proof fn lemma_read_genre(m: AudioMeta)
    ensures
        frame_text(build_frames(m), "TCON"@) == opt_view(m.genre),
{
    lemma_ids();
    lemma_steps();
    assert(well_slotted(Seq::<Id3Frame>::empty()));
}

proof fn lemma_read_composer(m: AudioMeta)
    ensures
        frame_text(build_frames(m), "TCOM"@) == opt_view(m.composer),
{
    lemma_ids();
    lemma_steps();
    assert(well_slotted(Seq::<Id3Frame>::empty()));
}

proof fn lemma_read_copyright(m: AudioMeta)
    ensures
        frame_text(build_frames(m), "TCOP"@) == opt_view(m.copyright),
{
    lemma_ids();
    lemma_steps();
    assert(well_slotted(Seq::<Id3Frame>::empty()));
}

proof fn lemma_read_title_sort(m: AudioMeta)
    ensures
        frame_text(build_frames(m), "TSOT"@) == opt_view(m.title_sort),
{
    lemma_ids();
    lemma_steps();
    assert(well_slotted(Seq::<Id3Frame>::empty()));
}

proof fn lemma_read_artist_sort(m: AudioMeta)
    ensures
        frame_text(build_frames(m), "TSOP"@) == opt_view(m.artist_sort),
{
    lemma_ids();
    lemma_steps();
    assert(well_slotted(Seq::<Id3Frame>::empty()));
}

proof fn lemma_read_album_sort(m: AudioMeta)
    ensures
        frame_text(build_frames(m), "TSOA"@) == opt_view(m.album_sort),
{
    lemma_ids();
    lemma_steps();
    assert(well_slotted(Seq::<Id3Frame>::empty()));
}

proof fn lemma_read_album_artist_sort(m: AudioMeta)
    ensures
        frame_text(build_frames(m), "TSO2"@) == opt_view(m.album_artist_sort),
{
    lemma_ids();
    lemma_steps();
    assert(well_slotted(Seq::<Id3Frame>::empty()));
}

proof fn lemma_read_encoder(m: AudioMeta)
    ensures
        frame_text(build_frames(m), "TSSE"@) == opt_view(m.encoder),
{
    lemma_ids();
    lemma_steps();
    assert(well_slotted(Seq::<Id3Frame>::empty()));
}

proof fn lemma_read_mb_recording_id(m: AudioMeta)
    ensures
        user_text(build_frames(m), "MusicBrainz Recording Id"@) == opt_view(m.mb_recording_id),
{
    lemma_ids();
    lemma_steps();
    assert(well_slotted(Seq::<Id3Frame>::empty()));
}

proof fn lemma_read_mb_album_id(m: AudioMeta)
    ensures
        user_text(build_frames(m), "MusicBrainz Album Id"@) == opt_view(m.mb_album_id),
{
    lemma_ids();
    lemma_steps();
    assert(well_slotted(Seq::<Id3Frame>::empty()));
}

proof fn lemma_read_mb_artist_id(m: AudioMeta)
    ensures
        user_text(build_frames(m), "MusicBrainz Artist Id"@) == opt_view(m.mb_artist_id),
{
    lemma_ids();
    lemma_steps();
    assert(well_slotted(Seq::<Id3Frame>::empty()));
}

proof fn lemma_read_mb_album_artist_id(m: AudioMeta)
    ensures
        user_text(build_frames(m), "MusicBrainz Album Artist Id"@) == opt_view(m.mb_album_artist_id),
{
    lemma_ids();
    lemma_steps();
    assert(well_slotted(Seq::<Id3Frame>::empty()));
}

proof fn lemma_read_mb_release_group_id(m: AudioMeta)
    ensures
        user_text(build_frames(m), "MusicBrainz Release Group Id"@) == opt_view(m.mb_release_group_id),
{
    lemma_ids();
    lemma_steps();
    assert(well_slotted(Seq::<Id3Frame>::empty()));
}

proof fn lemma_read_track_gain(m: AudioMeta)
    ensures
        user_text(build_frames(m), "REPLAYGAIN_TRACK_GAIN"@) == gain_opt(m.replaygain_track_gain),
{
    lemma_ids();
    lemma_steps();
    assert(well_slotted(Seq::<Id3Frame>::empty()));
}

proof fn lemma_read_track_peak(m: AudioMeta)
    ensures
        user_text(build_frames(m), "REPLAYGAIN_TRACK_PEAK"@) == peak_opt(m.replaygain_track_peak),
{
    lemma_ids();
    lemma_steps();
    assert(well_slotted(Seq::<Id3Frame>::empty()));
}

proof fn lemma_read_album_gain(m: AudioMeta)
    ensures
        user_text(build_frames(m), "REPLAYGAIN_ALBUM_GAIN"@) == gain_opt(m.replaygain_album_gain),
{
    lemma_ids();
    lemma_steps();
    assert(well_slotted(Seq::<Id3Frame>::empty()));
}

proof fn lemma_read_album_peak(m: AudioMeta)
    ensures
        user_text(build_frames(m), "REPLAYGAIN_ALBUM_PEAK"@) == peak_opt(m.replaygain_album_peak),
{
    lemma_ids();
    lemma_steps();
    assert(well_slotted(Seq::<Id3Frame>::empty()));
}

proof fn lemma_read_date(m: AudioMeta)
    ensures
        frame_text(build_frames(m), "TDRC"@) == date_text(m),
{
    lemma_ids();
    lemma_steps();
    assert(well_slotted(Seq::<Id3Frame>::empty()));
}

proof fn lemma_read_track(m: AudioMeta)
    ensures
        frame_text(build_frames(m), "TRCK"@) == pair_opt(m.track, m.track_total),
{
    lemma_ids();
    lemma_steps();
    assert(well_slotted(Seq::<Id3Frame>::empty()));
}

proof fn lemma_read_disc(m: AudioMeta)
    ensures
        frame_text(build_frames(m), "TPOS"@) == pair_opt(m.disc, m.disc_total),
{
    lemma_ids();
    lemma_steps();
    assert(well_slotted(Seq::<Id3Frame>::empty()));
}

proof fn lemma_read_compilation(m: AudioMeta)
    ensures
        frame_text(build_frames(m), "TCMP"@) == compilation_text(m.compilation),
{
    lemma_ids();
    lemma_steps();
    assert(well_slotted(Seq::<Id3Frame>::empty()));
}

proof fn lemma_read_comment(m: AudioMeta)
    ensures
        first_comment(build_frames(m)) == opt_view(m.comment),
{
    lemma_ids();
    lemma_steps();
    assert(well_slotted(Seq::<Id3Frame>::empty()));
}

proof fn lemma_read_lyrics(m: AudioMeta)
    ensures
        first_lyrics(build_frames(m)) == opt_view(m.lyrics),
{
    lemma_ids();
    lemma_steps();
    assert(well_slotted(Seq::<Id3Frame>::empty()));
}


proof fn lemma_first_slash_digits(a: Seq<char>, b: Seq<char>)
    requires
        all_digits(a),
    ensures
        first_slash(a + b) == a.len() + first_slash(b),
    decreases a.len(),
{
    if a.len() == 0 {
        assert(a + b =~= b);
    } else {
        assert((a + b)[0] == a[0]);
        assert(crate::numtext::is_digit(a[0]));
        assert((a + b).drop_first() =~= a.drop_first() + b);
        let rest = a.drop_first();
        assert forall|i: int| 0 <= i < rest.len() implies crate::numtext::is_digit(#[trigger] rest[i]) by {
            assert(rest[i] == a[i + 1]);
        }
        lemma_first_slash_digits(rest, b);
    }
}

/// A track or disc number written as `n` or `n/total` reads back as the number and the
/// total; a total without a number is not written.
proof fn lemma_pair_back(n: Option<u32>, t: Option<u32>)
    ensures
        pair_of(pair_opt(n, t)) == (n, if n is Some { t } else { None::<u32> }),
{
    if let Some(k) = n {
        crate::numtext::lemma_decimal(k as nat);
        crate::numtext::lemma_parse_decimal_u32(k);
        let dk = decimal(k as nat);
        match t {
            Some(u) => {
                crate::numtext::lemma_decimal(u as nat);
                crate::numtext::lemma_parse_decimal_u32(u);
                let du = decimal(u as nat);
                let s = pair_text(k, t);
                assert(s == dk + seq!['/'] + du);
                assert(dk + seq!['/'] + du =~= dk + (seq!['/'] + du));
                lemma_first_slash_digits(dk, seq!['/'] + du);
                assert((seq!['/'] + du)[0] == '/');
                assert(first_slash(seq!['/'] + du) == 0);
                assert(first_slash(s) == dk.len());
                let rest = s.skip(dk.len() as int + 1);
                assert(rest =~= du);
                lemma_first_slash_digits(du, Seq::empty());
                assert(du + Seq::<char>::empty() =~= du);
                assert(first_slash(du) == du.len());
                assert(rest.subrange(0, first_slash(rest)) =~= du);
                assert(s.subrange(0, dk.len() as int) =~= dk);
                assert(split_pair(s) == (dk, Some(du)));
            },
            None => {
                lemma_first_slash_digits(dk, Seq::empty());
                assert(dk + Seq::<char>::empty() =~= dk);
                assert(split_pair(dk) == (dk, None::<Seq<char>>));
            },
        }
    }
}

/// Reading the metadata of a tag built from metadata gives the fields back: every text
/// (title, artist and album with the version 2.4 separator `\0` read as `/`; the genre as
/// the tag library reads the genre text), the comment and lyrics, the numbers (a total only
/// with its number), the flag, the peaks; the gains rounded to hundredths of a decibel; the
/// date as written, or the year where only the year was given. This holds for every gain
/// whose rounded magnitude fits and every peak but the least value.
pub proof fn law_tag_build_then_extract(m: AudioMeta, r: AudioMeta)
    requires
        id3_extracted_from(r, build_frames(m), true),
        gain_fits(m.replaygain_track_gain),
        gain_fits(m.replaygain_album_gain),
        peak_fits(m.replaygain_track_peak),
        peak_fits(m.replaygain_album_peak),
    ensures
        opt_view(r.title) == map_text(opt_view(m.title), true),
        opt_view(r.artist) == map_text(opt_view(m.artist), true),
        opt_view(r.album) == map_text(opt_view(m.album), true),
        opt_view(r.genre) == (match opt_view(m.genre) {
            Some(g) => lofty_genre(g),
            None => None,
        }),
        opt_view(r.album_artist) == opt_view(m.album_artist),
        opt_view(r.composer) == opt_view(m.composer),
        opt_view(r.comment) == opt_view(m.comment),
        opt_view(r.lyrics) == opt_view(m.lyrics),
        opt_view(r.copyright) == opt_view(m.copyright),
        opt_view(r.title_sort) == opt_view(m.title_sort),
        opt_view(r.artist_sort) == opt_view(m.artist_sort),
        opt_view(r.album_sort) == opt_view(m.album_sort),
        opt_view(r.album_artist_sort) == opt_view(m.album_artist_sort),
        opt_view(r.mb_recording_id) == opt_view(m.mb_recording_id),
        opt_view(r.mb_album_id) == opt_view(m.mb_album_id),
        opt_view(r.mb_artist_id) == opt_view(m.mb_artist_id),
        opt_view(r.mb_album_artist_id) == opt_view(m.mb_album_artist_id),
        opt_view(r.mb_release_group_id) == opt_view(m.mb_release_group_id),
        opt_view(r.encoder) == opt_view(m.encoder),
        opt_view(r.date) == date_text(m),
        m.date is None ==> r.year == m.year,
        r.track == m.track,
        r.track_total == (if m.track is Some { m.track_total } else { None }),
        r.disc == m.disc,
        r.disc_total == (if m.disc is Some { m.disc_total } else { None }),
        r.compilation == m.compilation,
        r.replaygain_track_peak == m.replaygain_track_peak,
        r.replaygain_album_peak == m.replaygain_album_peak,
        r.replaygain_track_gain == rounded_opt(m.replaygain_track_gain),
        r.replaygain_album_gain == rounded_opt(m.replaygain_album_gain),
{
    lemma_read_title(m);
    lemma_read_artist(m);
    lemma_read_album(m);
    lemma_read_album_artist(m);
    lemma_read_genre(m);
    lemma_read_composer(m);
    lemma_read_copyright(m);
    lemma_read_title_sort(m);
    lemma_read_artist_sort(m);
    lemma_read_album_sort(m);
    lemma_read_album_artist_sort(m);
    lemma_read_encoder(m);
    lemma_read_mb_recording_id(m);
    lemma_read_mb_album_id(m);
    lemma_read_mb_artist_id(m);
    lemma_read_mb_album_artist_id(m);
    lemma_read_mb_release_group_id(m);
    lemma_read_track_gain(m);
    lemma_read_track_peak(m);
    lemma_read_album_gain(m);
    lemma_read_album_peak(m);
    lemma_read_date(m);
    lemma_read_track(m);
    lemma_read_disc(m);
    lemma_read_compilation(m);
    lemma_read_comment(m);
    lemma_read_lyrics(m);
    lemma_pair_back(m.track, m.track_total);
    lemma_pair_back(m.disc, m.disc_total);
    if m.date is None {
        if let Some(y) = m.year {
            crate::numtext::lemma_decimal(y as nat);
            crate::flac::lemma_before_dash_digits(decimal(y as nat));
            crate::numtext::lemma_parse_decimal_u32(y);
        }
    }
    if let Some(c) = m.compilation {
        if !c {
            assert(seq!['0'][0] != seq!['1'][0]);
            assert(seq!['0'] != seq!['1']);
        }
    }
    if let Some(g) = m.replaygain_track_gain {
        crate::fixed::law_gain_text_roundtrip(g);
    }
    if let Some(g) = m.replaygain_album_gain {
        crate::fixed::law_gain_text_roundtrip(g);
    }
    if let Some(p) = m.replaygain_track_peak {
        crate::fixed::law_peak_text_roundtrip(p);
    }
    if let Some(p) = m.replaygain_album_peak {
        crate::fixed::law_peak_text_roundtrip(p);
    }
}

} // verus!
