//! Reads of a file whose header is synthesized from the catalogue: the virtual file is the new
//! header followed by the audio region of the origin file. This module plans a read over the
//! two parts and splices the bytes; fetching the audio is left to the caller.
use vstd::prelude::*;

use crate::format::FormatError;
use crate::types::{AudioFormat, FileId};

verus! {

/// Why an overlay read failed.
#[derive(Debug, Clone)]
pub enum OverlayError {
    Database(String),
    Handler(FormatError),
    Cas(String),
    NotFound(FileId),
    NoHandler(AudioFormat),
}

/// The virtual file: the synthesized header, then the audio bytes of the origin file.
pub open spec fn virtual_file(header: Seq<u8>, audio: Seq<u8>) -> Seq<u8> {
    header + audio
}

/// What a read at `offset` of `size` bytes takes from each part of the virtual file.
#[derive(Debug, Clone, Copy)]
pub struct ReadPlan {
    /// Bytes `[start, end)` of the header, where the read begins inside it.
    pub header: Option<(u64, u64)>,
    /// The offset in the origin file and the byte count of the audio to fetch, where the
    /// read reaches past the header.
    pub audio: Option<(u64, u32)>,
}

/// Whether the sizes involved can be added without overflow.
pub open spec fn plan_fits(header_len: u64, audio_start: u64, audio_end: u64, offset: u64, size: u32) -> bool {
    &&& audio_start <= audio_end
    &&& header_len + (audio_end - audio_start) <= u64::MAX
    &&& offset + size <= u64::MAX
}

/// The plan of a read: nothing at or past the end; else the part of `[offset, offset +
/// size)` clipped to the file that falls in the header, and the part that falls in the audio,
/// read from the origin file at the same distance past the audio start.
pub open spec fn plan_spec(header_len: u64, audio_start: u64, audio_end: u64, offset: u64, size: u32) -> ReadPlan {
    let vsize = header_len + (audio_end - audio_start);
    if offset >= vsize {
        ReadPlan { header: None, audio: None }
    } else {
        let vend = if offset + size < vsize { offset + size } else { vsize };
        ReadPlan {
            header: if offset < header_len {
                Some((offset, (if vend < header_len { vend } else { header_len as int }) as u64))
            } else {
                None
            },
            audio: if vend > header_len {
                let from = if offset > header_len { offset as int } else { header_len as int };
                Some(((audio_start + (from - header_len)) as u64, (vend - from) as u32))
            } else {
                None
            },
        }
    }
}

/// Plans a read of the virtual file.
pub fn plan_read(header_len: u64, audio_start: u64, audio_end: u64, offset: u64, size: u32) -> (r: ReadPlan)
    requires
        plan_fits(header_len, audio_start, audio_end, offset, size),
    ensures
        r == plan_spec(header_len, audio_start, audio_end, offset, size),
{
    let vsize = header_len + (audio_end - audio_start);
    if offset >= vsize {
        return ReadPlan { header: None, audio: None };
    }
    let want = offset + size as u64;
    let vend = if want < vsize { want } else { vsize };
    let header = if offset < header_len {
        Some((offset, if vend < header_len { vend } else { header_len }))
    } else {
        None
    };
    let audio = if vend > header_len {
        let from = if offset > header_len { offset } else { header_len };
        Some((audio_start + (from - header_len), (vend - from) as u32))
    } else {
        None
    };
    ReadPlan { header, audio }
}

/// The bytes of a planned read: the planned part of the header, then the audio that was
/// fetched for it.
pub fn splice(header: &[u8], plan: &ReadPlan, audio: &[u8]) -> (r: Vec<u8>)
    requires
        plan.header matches Some((s, e)) ==> s <= e <= header@.len(),
    ensures
        r@ == (match plan.header {
            Some((s, e)) => header@.subrange(s as int, e as int),
            None => Seq::empty(),
        }) + (if plan.audio is Some {
            audio@
        } else {
            Seq::empty()
        }),
{
    let mut out: Vec<u8> = Vec::new();
    let ghost h: Seq<u8> = match plan.header {
        Some((s, e)) => header@.subrange(s as int, e as int),
        None => Seq::empty(),
    };
    if let Some((s, e)) = plan.header {
        let mut i: u64 = s;
        while i < e
            invariant
                s <= i <= e <= header@.len(),
                out@ == header@.subrange(s as int, i as int),
            decreases e - i,
        {
            out.push(header[i as usize]);
            proof {
                assert(out@ =~= header@.subrange(s as int, i + 1));
            }
            i = i + 1;
        }
    }
    proof {
        assert(out@ =~= h);
    }
    if plan.audio.is_some() {
        let mut j: usize = 0;
        while j < audio.len()
            invariant
                j <= audio@.len(),
                out@ == h + audio@.subrange(0, j as int),
            decreases audio@.len() - j,
        {
            out.push(audio[j]);
            proof {
                assert(out@ =~= h + audio@.subrange(0, j + 1));
            }
            j = j + 1;
        }
        proof {
            assert(audio@.subrange(0, audio@.len() as int) =~= audio@);
        }
    } else {
        proof {
            assert(out@ =~= h + Seq::<u8>::empty());
        }
    }
    out
}

/// The bytes that a read of the origin's audio region should give for a plan.
pub open spec fn audio_part(origin: Seq<u8>, plan: ReadPlan) -> Seq<u8> {
    match plan.audio {
        Some((at, n)) => origin.subrange(at as int, at + n),
        None => Seq::empty(),
    }
}

/// A read through the overlay gives back the bytes of the virtual file at the offset, up to
/// its end: where the audio fetch returns the origin's bytes, the spliced result is the range
/// `[offset, min(offset + size, size of the virtual file))` of header followed by the audio
/// region.
pub proof fn law_read_is_virtual_range(
    header: Seq<u8>,
    origin: Seq<u8>,
    audio_start: u64,
    audio_end: u64,
    offset: u64,
    size: u32,
)
    requires
        audio_start <= audio_end <= origin.len(),
        plan_fits(header.len() as u64, audio_start, audio_end, offset, size),
        header.len() <= u64::MAX,
    ensures
        ({
            let plan = plan_spec(header.len() as u64, audio_start, audio_end, offset, size);
            let v = virtual_file(header, origin.subrange(audio_start as int, audio_end as int));
            let got = (match plan.header {
                Some((s, e)) => header.subrange(s as int, e as int),
                None => Seq::empty(),
            }) + audio_part(origin, plan);
            &&& offset < v.len() ==> got == v.subrange(offset as int, if offset + size < v.len() { offset + size } else { v.len() as int })
            &&& offset >= v.len() ==> got.len() == 0
        }),
{
    let hl = header.len() as u64;
    let plan = plan_spec(hl, audio_start, audio_end, offset, size);
    let a = origin.subrange(audio_start as int, audio_end as int);
    let v = virtual_file(header, a);
    assert(v.len() == hl + (audio_end - audio_start));
    if offset < v.len() {
        let vend: int = if offset + size < v.len() { offset + size } else { v.len() as int };
        let hpart: Seq<u8> = match plan.header {
            Some((s, e)) => header.subrange(s as int, e as int),
            None => Seq::empty(),
        };
        let apart = audio_part(origin, plan);
        let got = hpart + apart;
        if vend <= hl {
            assert(apart =~= Seq::<u8>::empty());
            assert(got =~= v.subrange(offset as int, vend));
        } else {
            let from: int = if offset > hl { offset as int } else { hl as int };
            assert(apart =~= origin.subrange(audio_start + (from - hl), audio_start + (vend - hl)));
            assert(apart =~= a.subrange(from - hl, vend - hl));
            if offset < hl {
                assert(hpart =~= header.subrange(offset as int, hl as int));
                assert(got =~= v.subrange(offset as int, vend));
            } else {
                assert(hpart =~= Seq::<u8>::empty());
                assert(got =~= v.subrange(offset as int, vend));
            }
        }
    }
}

/// The virtual size reported before a read: the estimated header size plus the audio region.
pub fn estimated_virtual_size(estimated_header: u64, audio_start: u64, audio_end: u64) -> (r: u64)
    requires
        audio_start <= audio_end,
        estimated_header + (audio_end - audio_start) <= u64::MAX,
    ensures
        r == estimated_header + (audio_end - audio_start),
{
    estimated_header + (audio_end - audio_start)
}

/// The handler id of a format: its debug name in lower case.
pub open spec fn handler_id_spec(f: AudioFormat) -> Seq<char> {
    crate::text::ascii_lower_spec(crate::service::format_name_spec(f))
}

/// The id under which the handler of a layout's format is looked up.
pub fn handler_id(f: AudioFormat) -> (r: String)
    ensures
        r@ == handler_id_spec(f),
{
    let name = crate::service::format_name(f);
    let low = crate::text::ascii_lower(name.as_str());
    crate::text::from_chars(low.as_slice())
}

} // verus!
