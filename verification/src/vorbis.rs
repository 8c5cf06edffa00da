//! Vorbis comments as `lofty` keeps them: a vendor string and an ordered list of key/value
//! items, with keys compared without regard to ASCII case.
use vstd::prelude::*;

use lofty::file::AudioFile;
use lofty::ogg::VorbisComments;

use crate::text::ascii_lower_spec;

verus! {

#[verifier::external_type_specification]
#[verifier::external_body]
pub struct ExVorbisComments(lofty::ogg::VorbisComments);

/// The key/value items of a `VorbisComments`, in order.
pub uninterp spec fn vorbis_items(t: VorbisComments) -> Seq<(Seq<char>, Seq<char>)>;

/// The vendor string of a `VorbisComments`.
pub uninterp spec fn vorbis_vendor(t: VorbisComments) -> Seq<char>;

/// A key that the Vorbis comment format allows: not empty, every character in ASCII
/// `0x20..=0x7D`, and no `=`.
pub open spec fn valid_key(k: Seq<char>) -> bool {
    k.len() > 0 && forall|i: int| 0 <= i < k.len() ==> (' ' <= #[trigger] k[i] && k[i] <= '}' && k[i] != '=')
}

/// Two keys that are equal but for ASCII case.
pub open spec fn same_key(a: Seq<char>, b: Seq<char>) -> bool {
    ascii_lower_spec(a) == ascii_lower_spec(b)
}

/// The items whose key is not `key`, in order.
pub open spec fn without_key(items: Seq<(Seq<char>, Seq<char>)>, key: Seq<char>) -> Seq<(Seq<char>, Seq<char>)>
    decreases items.len(),
{
    if items.len() == 0 {
        items
    } else if same_key(items.last().0, key) {
        without_key(items.drop_last(), key)
    } else {
        without_key(items.drop_last(), key).push(items.last())
    }
}

/// `insert`: with a valid key, every item with that key is dropped and the new one appended.
pub open spec fn insert_spec(items: Seq<(Seq<char>, Seq<char>)>, key: Seq<char>, value: Seq<char>) -> Seq<(Seq<char>, Seq<char>)> {
    if valid_key(key) {
        without_key(items, key).push((key, value))
    } else {
        items
    }
}

/// The value of the first item with this key.
pub open spec fn first_value(items: Seq<(Seq<char>, Seq<char>)>, key: Seq<char>) -> Option<Seq<char>>
    decreases items.len(),
{
    if items.len() == 0 {
        None
    } else if same_key(items[0].0, key) {
        Some(items[0].1)
    } else {
        first_value(items.drop_first(), key)
    }
}

/// `get`: the first value under a valid key.
pub open spec fn lookup(items: Seq<(Seq<char>, Seq<char>)>, key: Seq<char>) -> Option<Seq<char>> {
    if valid_key(key) {
        first_value(items, key)
    } else {
        None
    }
}

/// The first value under a key once an item is appended: the earlier first value, or the
/// new item's where none was there and its key matches.
pub proof fn lemma_first_value_push(s: Seq<(Seq<char>, Seq<char>)>, x: (Seq<char>, Seq<char>), key: Seq<char>)
    ensures
        first_value(s.push(x), key) == match first_value(s, key) {
            Some(v) => Some(v),
            None => if same_key(x.0, key) {
                Some(x.1)
            } else {
                None
            },
        },
    decreases s.len(),
{
    if s.len() > 0 {
        assert(s.push(x)[0] == s[0]);
        assert(s.push(x).drop_first() =~= s.drop_first().push(x));
        lemma_first_value_push(s.drop_first(), x, key);
    } else {
        assert(s.push(x)[0] == x);
        assert(s.push(x).drop_first() =~= Seq::<(Seq<char>, Seq<char>)>::empty());
        assert(first_value(Seq::<(Seq<char>, Seq<char>)>::empty(), key) is None);
    }
}

/// Dropping the items of one key leaves the first value of every other key, and none of its own.
pub proof fn lemma_first_value_without(items: Seq<(Seq<char>, Seq<char>)>, k: Seq<char>, key: Seq<char>)
    ensures
        first_value(without_key(items, k), key) == if same_key(k, key) {
            None
        } else {
            first_value(items, key)
        },
    decreases items.len(),
{
    if items.len() > 0 {
        let init = items.drop_last();
        let x = items.last();
        lemma_first_value_without(init, k, key);
        assert(init.push(x) =~= items);
        lemma_first_value_push(init, x, key);
        if !same_key(x.0, k) {
            lemma_first_value_push(without_key(init, k), x, key);
        }
    }
}

/// The value under a valid key once an item is inserted: the new value where the keys match,
/// the earlier one otherwise.
pub proof fn lemma_lookup_insert(items: Seq<(Seq<char>, Seq<char>)>, k: Seq<char>, v: Seq<char>, key: Seq<char>)
    requires
        valid_key(k),
    ensures
        lookup(insert_spec(items, k, v), key) == if same_key(k, key) && valid_key(key) {
            Some(v)
        } else {
            lookup(items, key)
        },
{
    lemma_first_value_without(items, k, key);
    lemma_first_value_push(without_key(items, k), (k, v), key);
}

/// Keys equal but for case have the same length and the same characters but for case.
pub proof fn lemma_same_key_chars(a: Seq<char>, b: Seq<char>)
    ensures
        same_key(a, b) ==> a.len() == b.len() && forall|i: int|
            0 <= i < a.len() ==> crate::text::ascii_lower_char(#[trigger] a[i]) == crate::text::ascii_lower_char(b[i]),
{
    if same_key(a, b) {
        assert(ascii_lower_spec(a).len() == a.len());
        assert(ascii_lower_spec(b).len() == b.len());
        assert forall|i: int| 0 <= i < a.len() implies crate::text::ascii_lower_char(#[trigger] a[i])
            == crate::text::ascii_lower_char(b[i]) by {
            assert(ascii_lower_spec(a)[i] == ascii_lower_spec(b)[i]);
        }
    }
}

/// `VorbisComments::default`: an empty vendor and no items.
#[verifier::external_body]
pub(crate) fn vc_default() -> (r: VorbisComments)
    ensures
        vorbis_items(r) == Seq::<(Seq<char>, Seq<char>)>::empty(),
        vorbis_vendor(r) == Seq::<char>::empty(),
{
    VorbisComments::default()
}

/// `VorbisComments::insert`: with a valid key, removes every item whose key equals it but for
/// ASCII case and appends the new item; with an invalid key, does nothing. The vendor stays.
#[verifier::external_body]
pub(crate) fn vc_insert(t: &mut VorbisComments, key: String, value: String)
    ensures
        vorbis_items(*final(t)) == insert_spec(vorbis_items(*old(t)), key@, value@),
        vorbis_vendor(*final(t)) == vorbis_vendor(*old(t)),
{
    t.insert(key, value)
}

/// `VorbisComments::get`: with a valid key, the value of the first item whose key equals it
/// but for ASCII case; `None` otherwise.
#[verifier::external_body]
pub(crate) fn vc_get<'a>(t: &'a VorbisComments, key: &str) -> (r: Option<&'a str>)
    ensures
        match r {
            Some(v) => lookup(vorbis_items(*t), key@) == Some(v@),
            None => lookup(vorbis_items(*t), key@) is None,
        },
{
    t.get(key)
}

/// `VorbisComments::items`: every item in order, copied out.
#[verifier::external_body]
pub(crate) fn vc_items(t: &VorbisComments) -> (r: Vec<(String, String)>)
    ensures
        r@.map_values(|e: (String, String)| (e.0@, e.1@)) == vorbis_items(*t),
{
    t.items().map(|(k, v)| (k.to_owned(), v.to_owned())).collect()
}

/// `VorbisComments::vendor`.
#[verifier::external_body]
pub(crate) fn vc_vendor(t: &VorbisComments) -> (r: &str)
    ensures
        r@ == vorbis_vendor(*t),
{
    t.vendor()
}

/// `FlacFile::read_from` with default parse options, then its Vorbis comments (copied);
/// a read error is given as its text. Nothing is stated of the result: lofty caps its
/// allocations by a limit set per thread, so the same bytes may read in one setting and fail
/// in another.
#[verifier::external_body]
pub(crate) fn read_flac_comments(data: &[u8]) -> (r: Result<Option<VorbisComments>, String>)
{
    let mut cursor = std::io::Cursor::new(data);
    match lofty::flac::FlacFile::read_from(&mut cursor, lofty::config::ParseOptions::new()) {
        Ok(f) => Ok(f.vorbis_comments().cloned()),
        Err(e) => Err(e.to_string()),
    }
}

} // verus!
