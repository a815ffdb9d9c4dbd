//! The class loader: asks its parent first, then its own cache, then its class
//! path, and decodes and caches what it finds there.
use vstd::prelude::*;
use std::sync::Arc;
use crate::bytes::DecodeError;
use crate::class_file::{ClassFile, class_end, class_rel, magic_ok, parse};
use crate::class_path_manager::{ClassPathEntry, ClassPathManager, ClassPathResult, reported};

verus! {

/// The class path held bytes for `name` that do not decode.
#[derive(Debug)]
pub struct LoadError {
    pub name: String,
    pub error: DecodeError,
}

pub struct ClassLoader {
    parent_loader: Option<Box<ClassLoader>>,
    cpm: Arc<ClassPathManager>,
    loaded_class: Vec<(String, Arc<ClassFile>)>,
}

/// The class that a cache holds for `name`; the latest entry wins.
pub open spec fn cache_lookup(s: Seq<(String, Arc<ClassFile>)>, name: Seq<char>) -> Option<Arc<ClassFile>>
    decreases s.len(),
{
    if s.len() == 0 {
        None
    } else if s.last().0@ == name {
        Some(s.last().1)
    } else {
        cache_lookup(s.drop_last(), name)
    }
}

impl ClassLoader {
    pub closed spec fn parent(self) -> Option<ClassLoader> {
        match self.parent_loader {
            Some(p) => Some(*p),
            None => None,
        }
    }

    pub closed spec fn resolver(self) -> Arc<ClassPathManager> {
        self.cpm
    }

    /// The class this loader's own cache holds for `name`.
    pub closed spec fn cached(self, name: Seq<char>) -> Option<Arc<ClassFile>> {
        cache_lookup(self.loaded_class@, name)
    }

    /// How many loaders stand above this one.
    pub closed spec fn depth(self) -> nat
        decreases self,
    {
        match self.parent_loader {
            Some(p) => 1 + p.depth(),
            None => 0,
        }
    }

    /// The class that the topmost loader of the chain has cached for `name`:
    /// a load answers with it before any class path is searched.
    pub closed spec fn root_cached(self, name: Seq<char>) -> Option<Arc<ClassFile>>
        decreases self,
    {
        match self.parent_loader {
            Some(p) => p.root_cached(name),
            None => self.cached(name),
        }
    }

    /// Some loader of the chain, this one or one above it, caches `c` for `name`.
    pub closed spec fn holds(self, name: Seq<char>, c: Arc<ClassFile>) -> bool
        decreases self,
    {
        self.cached(name) == Some(c) || match self.parent_loader {
            Some(p) => p.holds(name, c),
            None => false,
        }
    }

    /// No loader of the chain caches `name`, and every entry of every class
    /// path in it answered `None` when `read` was asked for it.
    pub closed spec fn misses<F: Fn(&ClassPathEntry, &String) -> Option<Vec<u8>>>(
        self,
        name: Seq<char>,
        read: F,
    ) -> bool
        decreases self,
    {
        &&& self.cached(name) is None
        &&& forall|i: int|
            0 <= i < self.cpm@.len() ==> #[trigger] reported(read, self.cpm@[i], name, None)
        &&& match self.parent_loader {
            Some(p) => p.misses(name, read),
            None => true,
        }
    }

    /// Some class path of the chain answered `name` with bytes that satisfy
    /// `ok`.
    pub closed spec fn answered<F: Fn(&ClassPathEntry, &String) -> Option<Vec<u8>>>(
        self,
        name: Seq<char>,
        read: F,
        ok: spec_fn(Seq<u8>) -> bool,
    ) -> bool
        decreases self,
    {
        (exists|i: int, v: Vec<u8>|
            0 <= i < self.cpm@.len() && #[trigger] reported(read, self.cpm@[i], name, Some(v)) && ok(
                v@,
            )) || match self.parent_loader {
            Some(p) => p.answered(name, read, ok),
            None => false,
        }
    }

    pub fn new(cpm: Arc<ClassPathManager>, parent_loader: Option<Box<ClassLoader>>) -> (r: ClassLoader)
        ensures
            r.resolver() == cpm,
            r.parent() == match parent_loader {
                Some(p) => Some(*p),
                None => None::<ClassLoader>,
            },
            forall|n: Seq<char>| #[trigger] r.cached(n) is None,
    {
        ClassLoader { cpm, parent_loader, loaded_class: Vec::new() }
    }

    /// The class this loader's own cache holds for `name`.
    fn find_loaded(&self, name: &str) -> (r: Option<Arc<ClassFile>>)
        ensures
            r == self.cached(name@),
    {
        let key = name.to_owned();
        let mut i = self.loaded_class.len();
        assert(self.loaded_class@.subrange(0, i as int) =~= self.loaded_class@);
        while i > 0
            invariant
                key@ == name@,
                i <= self.loaded_class@.len(),
                cache_lookup(self.loaded_class@, name@) == cache_lookup(
                    self.loaded_class@.subrange(0, i as int),
                    name@,
                ),
            decreases i,
        {
            let ghost prefix = self.loaded_class@.subrange(0, i as int);
            assert(prefix.drop_last() =~= self.loaded_class@.subrange(0, i - 1));
            i -= 1;
            if self.loaded_class[i].0 == key {
                return Some(self.loaded_class[i].1.clone());
            }
        }
        None
    }

    /// Loads a class: the parent's answer if it has one; else this loader's
    /// cached class; else the class read through this loader's class path,
    /// decoded and cached. `Ok(None)` means that no class path holds the
    /// class; `Err` that one did, with bytes that do not decode. `read` reads
    /// a location of a class-path entry.
    pub fn load_class<F: Fn(&ClassPathEntry, &String) -> Option<Vec<u8>>>(
        &mut self,
        name: &str,
        read: &F,
    ) -> (r: Result<Option<Arc<ClassFile>>, LoadError>)
        requires
            forall|e: &ClassPathEntry, l: &String| read.requires((e, l)),
        ensures
            old(self).root_cached(name@) matches Some(c) ==> r == Ok::<
                Option<Arc<ClassFile>>,
                LoadError,
            >(Some(c)) && *final(self) == *old(self),
            r matches Ok(Some(c)) ==> final(self).holds(name@, c),
            r matches Ok(Some(c)) ==> old(self).holds(name@, c) || old(self).answered(
                name@,
                *read,
                |b: Seq<u8>| class_rel(b, *c),
            ),
            r matches Ok(None) ==> *final(self) == *old(self) && old(self).misses(name@, *read),
            r matches Err(e) ==> old(self).answered(
                name@,
                *read,
                |b: Seq<u8>| !(magic_ok(b) && class_end(b) is Some),
            ),
            forall|n: Seq<char>, c: Arc<ClassFile>|
                old(self).holds(n, c) ==> #[trigger] final(self).holds(n, c),
            final(self).depth() == old(self).depth(),
            final(self).resolver() == old(self).resolver(),
            r matches Err(e) ==> e.name@ == name@,
        decreases old(self).depth(),
    {
        let from_parent = match &mut self.parent_loader {
            Some(parent) => Some(parent.load_class(name, read)),
            None => None,
        };
        assert(self.loaded_class == old(self).loaded_class);
        assert(self.cpm == old(self).cpm);
        assert forall|n: Seq<char>, c: Arc<ClassFile>| old(self).holds(n, c) implies #[trigger] self.holds(
            n,
            c,
        ) by {
            if old(self).cached(n) != Some(c) {
                assert(old(self).parent_loader is Some);
                let op = *old(self).parent_loader.unwrap();
                assert(op.holds(n, c));
                assert(self.parent_loader is Some);
                let np = *self.parent_loader.unwrap();
                assert(np.holds(n, c));
            }
        }
        let ghost mid = *self;
        match from_parent {
            Some(Ok(Some(c))) => return Ok(Some(c)),
            Some(Err(e)) => return Err(e),
            _ => {},
        }
        match self.find_loaded(name) {
            Some(c) => return Ok(Some(c)),
            None => {},
        }
        match self.cpm.search_class(name, read) {
            Ok(ClassPathResult(_, bytes)) => match parse(bytes.as_slice()) {
                Ok(cf) => {
                    let c = Arc::new(cf);
                    let ghost old_cache = self.loaded_class@;
                    self.loaded_class.push((name.to_owned(), c.clone()));
                    assert(self.loaded_class@.drop_last() =~= old_cache);
                    assert forall|n: Seq<char>, k: Arc<ClassFile>| mid.holds(n, k) implies #[trigger] self.holds(
                        n,
                        k,
                    ) by {
                        if mid.cached(n) == Some(k) {
                            assert(n != name@);
                        } else {
                            assert(mid.parent_loader is Some);
                            let p = *mid.parent_loader.unwrap();
                            assert(p.holds(n, k));
                        }
                    }
                    Ok(Some(c))
                },
                Err(error) => Err(LoadError { name: name.to_owned(), error }),
            },
            Err(_) => Ok(None),
        }
    }
}

/// A child whose parent chain already holds `c` at its top for `name` answers
/// with that same class: `load_class` then returns it and changes nothing, so
/// the child's own class path is never searched.
pub proof fn lemma_parent_answers(child: ClassLoader, name: Seq<char>, c: Arc<ClassFile>)
    requires
        child.parent() matches Some(p) && p.root_cached(name) == Some(c),
    ensures
        child.root_cached(name) == Some(c),
{
}

/// Loading twice gives one class: once a loader without a parent has returned
/// `c` for `name`, its cache holds `c`, so the next `load_class` of `name`
/// returns `c` again and changes nothing.
pub proof fn lemma_load_twice(l: ClassLoader, name: Seq<char>, c: Arc<ClassFile>)
    requires
        l.parent() is None,
        l.holds(name, c),
    ensures
        l.root_cached(name) == Some(c),
{
}

} // verus!
