//! Finding a format handler by its id or by a file extension it claims.
use vstd::prelude::*;

use crate::router::{first_val, lemma_first_val_push, lemma_first_val_update};
use crate::text::{chars_eq, to_chars};

verus! {

/// Handlers by id, and for each extension the id of the handler that claimed it last.
pub struct FormatHandlerRegistry<H> {
    handlers: Vec<(String, H)>,
    extension_map: Vec<(String, String)>,
}

pub open spec fn handlers_view<H>(v: Seq<(String, H)>) -> Seq<(Seq<char>, H)> {
    v.map_values(|e: (String, H)| (e.0@, e.1))
}

pub open spec fn ext_view(v: Seq<(String, String)>) -> Seq<(Seq<char>, Seq<char>)> {
    v.map_values(|e: (String, String)| (e.0@, e.1@))
}

fn find_key<H>(v: &Vec<(String, H)>, key: &str) -> (r: Option<usize>)
    ensures
        match r {
            Some(i) => i < v@.len() && v@[i as int].0@ == key@ && first_val(handlers_view(v@), key@) == Some(v@[i as int].1)
                && forall|j: int| 0 <= j < i ==> handlers_view(v@)[j].0 != key@,
            None => first_val(handlers_view(v@), key@) is None,
        },
{
    let ghost s = handlers_view(v@);
    let k = to_chars(key);
    let mut i: usize = 0;
    proof {
        assert(s.skip(0) =~= s);
    }
    while i < v.len()
        invariant
            i <= s.len(),
            s == handlers_view(v@),
            k@ == key@,
            first_val(s, key@) == first_val(s.skip(i as int), key@),
            forall|j: int| 0 <= j < i ==> s[j].0 != key@,
        decreases s.len() - i,
    {
        proof {
            assert(s.skip(i as int).drop_first() =~= s.skip(i + 1));
            assert(s.skip(i as int)[0] == s[i as int]);
        }
        if chars_eq(to_chars(v[i].0.as_str()).as_slice(), k.as_slice()) {
            return Some(i);
        }
        i = i + 1;
    }
    proof {
        assert(s.skip(s.len() as int) =~= Seq::<(Seq<char>, H)>::empty());
    }
    None
}

fn find_ext(v: &Vec<(String, String)>, key: &str) -> (r: Option<usize>)
    ensures
        match r {
            Some(i) => i < v@.len() && v@[i as int].0@ == key@ && first_val(ext_view(v@), key@) == Some(v@[i as int].1@)
                && forall|j: int| 0 <= j < i ==> ext_view(v@)[j].0 != key@,
            None => first_val(ext_view(v@), key@) is None,
        },
{
    let ghost s = ext_view(v@);
    let k = to_chars(key);
    let mut i: usize = 0;
    proof {
        assert(s.skip(0) =~= s);
    }
    while i < v.len()
        invariant
            i <= s.len(),
            s == ext_view(v@),
            k@ == key@,
            first_val(s, key@) == first_val(s.skip(i as int), key@),
            forall|j: int| 0 <= j < i ==> s[j].0 != key@,
        decreases s.len() - i,
    {
        proof {
            assert(s.skip(i as int).drop_first() =~= s.skip(i + 1));
            assert(s.skip(i as int)[0] == s[i as int]);
        }
        if chars_eq(to_chars(v[i].0.as_str()).as_slice(), k.as_slice()) {
            return Some(i);
        }
        i = i + 1;
    }
    proof {
        assert(s.skip(s.len() as int) =~= Seq::<(Seq<char>, Seq<char>)>::empty());
    }
    None
}

impl<H> FormatHandlerRegistry<H> {
    /// The handler registered under an id.
    pub closed spec fn handler_for(&self, id: Seq<char>) -> Option<H> {
        first_val(handlers_view(self.handlers@), id)
    }

    /// The id of the handler that claims an extension.
    pub closed spec fn id_for_ext(&self, ext: Seq<char>) -> Option<Seq<char>> {
        first_val(ext_view(self.extension_map@), ext)
    }

    pub fn new() -> (r: Self)
        ensures
            forall|id: Seq<char>| #[trigger] r.handler_for(id) is None,
            forall|e: Seq<char>| #[trigger] r.id_for_ext(e) is None,
    {
        let r = FormatHandlerRegistry { handlers: Vec::new(), extension_map: Vec::new() };
        proof {
            assert(handlers_view(r.handlers@) =~= Seq::<(Seq<char>, H)>::empty());
            assert(ext_view(r.extension_map@) =~= Seq::<(Seq<char>, Seq<char>)>::empty());
        }
        r
    }

    /// Registers a handler under its id (replacing one registered under the same id) and
    /// lets it claim each of its extensions.
    pub fn register(&mut self, id: &str, extensions: &[&str], handler: H)
        ensures
            final(self).handler_for(id@) == Some(handler),
            forall|k: Seq<char>| k != id@ ==> #[trigger] final(self).handler_for(k) == old(self).handler_for(k),
            forall|e: Seq<char>| #[trigger] final(self).id_for_ext(e) == (if exists|j: int| 0 <= j < extensions@.len() && extensions@[j]@ == e {
                Some(id@)
            } else {
                old(self).id_for_ext(e)
            }),
    {
        let mut i: usize = 0;
        while i < extensions.len()
            invariant
                i <= extensions@.len(),
                self.handlers@ == old(self).handlers@,
                forall|e: Seq<char>| #[trigger] first_val(ext_view(self.extension_map@), e) == (if exists|j: int| 0 <= j < i && extensions@[j]@ == e {
                    Some(id@)
                } else {
                    old(self).id_for_ext(e)
                }),
            decreases extensions@.len() - i,
        {
            let ext = extensions[i];
            let ghost before = ext_view(self.extension_map@);
            proof {
                assert forall|e: Seq<char>| #[trigger] first_val(before, e) == (if exists|j: int| 0 <= j < i && extensions@[j]@ == e {
                    Some(id@)
                } else {
                    old(self).id_for_ext(e)
                }) by {
                    assert(first_val(ext_view(self.extension_map@), e) == first_val(before, e));
                }
            }
            let entry = (ext.to_string(), id.to_string());
            match find_ext(&self.extension_map, ext) {
                Some(p) => {
                    self.extension_map.set(p, entry);
                    proof {
                        assert(ext_view(self.extension_map@) =~= before.update(p as int, (ext@, id@)));
                        lemma_first_val_update(before, p as int, ext@, id@);
                    }
                },
                None => {
                    self.extension_map.push(entry);
                    proof {
                        assert(ext_view(self.extension_map@) =~= before.push((ext@, id@)));
                        lemma_first_val_push(before, ext@, id@);
                    }
                },
            }
            proof {
                assert forall|e: Seq<char>| #[trigger] first_val(ext_view(self.extension_map@), e) == (if exists|j: int| 0 <= j < i + 1 && extensions@[j]@ == e {
                    Some(id@)
                } else {
                    old(self).id_for_ext(e)
                }) by {
                    assert(extensions@[i as int]@ == ext@);
                    if e == ext@ {
                        assert(extensions@[i as int]@ == e);
                    } else {
                        assert(first_val(ext_view(self.extension_map@), e) == first_val(before, e));
                        if exists|j: int| 0 <= j < i + 1 && extensions@[j]@ == e {
                            let j = choose|j: int| 0 <= j < i + 1 && extensions@[j]@ == e;
                            assert(j != i);
                        }
                    }
                }
            }
            i = i + 1;
        }
        let ghost before = handlers_view(self.handlers@);
        let key = id.to_string();
        match find_key(&self.handlers, id) {
            Some(p) => {
                self.handlers.set(p, (key, handler));
                proof {
                    assert(handlers_view(self.handlers@) =~= before.update(p as int, (id@, handler)));
                    lemma_first_val_update(before, p as int, id@, handler);
                }
            },
            None => {
                self.handlers.push((key, handler));
                proof {
                    assert(handlers_view(self.handlers@) =~= before.push((id@, handler)));
                    lemma_first_val_push(before, id@, handler);
                }
            },
        }
    }

    /// The handler registered under a format id.
    pub fn get_by_format(&self, format: &str) -> (r: Option<&H>)
        ensures
            match self.handler_for(format@) {
                Some(h) => r == Some(&h),
                None => r is None,
            },
    {
        match find_key(&self.handlers, format) {
            Some(i) => Some(&self.handlers[i].1),
            None => None,
        }
    }

    /// The handler that claims an extension (matched exactly, case included).
    pub fn get_by_extension(&self, ext: &str) -> (r: Option<&H>)
        ensures
            match self.id_for_ext(ext@) {
                Some(id) => match self.handler_for(id) {
                    Some(h) => r == Some(&h),
                    None => r is None,
                },
                None => r is None,
            },
    {
        match find_ext(&self.extension_map, ext) {
            Some(i) => {
                let id = self.extension_map[i].1.as_str();
                match find_key(&self.handlers, id) {
                    Some(j) => Some(&self.handlers[j].1),
                    None => None,
                }
            },
            None => None,
        }
    }
}

impl<H> Default for FormatHandlerRegistry<H> {
    fn default() -> (r: Self)
        ensures
            forall|id: Seq<char>| #[trigger] r.handler_for(id) is None,
            forall|e: Seq<char>| #[trigger] r.id_for_ext(e) is None,
    {
        Self::new()
    }
}

} // verus!
