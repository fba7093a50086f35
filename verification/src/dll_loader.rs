use vstd::prelude::*;

use std::path::PathBuf;

use libloading::Library;

use crate::error::{FrameworkError, FrameworkResult};
use crate::strmap::StrMap;

verus! {

#[verifier::external_type_specification]
#[verifier::external_body]
pub struct ExLibrary(Library);

/// Calls `<PathBuf as Clone>::clone`, which copies the path's bytes: the
/// copy is the same path.
#[verifier::external_body]
fn clone_path(path: &PathBuf) -> (copy: PathBuf)
    ensures
        copy == *path,
{
    path.clone()
}

/// The message of the error for a library that is not loaded.
pub open spec fn not_loaded_message(name: Seq<char>) -> Seq<char> {
    "DLL '"@ + name + "' not loaded"@
}

/// The name of the function that frees the strings a library function
/// returns: the prefix of `fn_name` up to its first `_`, followed by
/// `_free_string`; none when `fn_name` has no `_`.
pub open spec fn free_fn_name_of(fn_name: Seq<char>) -> Option<Seq<char>> {
    if fn_name.contains('_') {
        Some(fn_name.take(fn_name.index_of_first('_')->0) + "_free_string"@)
    } else {
        None
    }
}

/// The name of the function that frees the strings `fn_name` returns
/// (for `sysinfo_get_summary`, `sysinfo_free_string`).
pub fn free_fn_name(fn_name: &str) -> (r: Option<String>)
    ensures
        r matches Some(s) ==> free_fn_name_of(fn_name@) == Some(s@),
        r is None <==> free_fn_name_of(fn_name@) is None,
{
    let n = fn_name.unicode_len();
    let mut i: usize = 0;
    while i < n
        invariant
            n == fn_name@.len(),
            i <= n,
            forall|j: int| 0 <= j < i ==> fn_name@[j] != '_',
        decreases n - i,
    {
        if fn_name.get_char(i) == '_' {
            proof {
                fn_name@.index_of_first_ensures('_');
                let k = fn_name@.index_of_first('_')->0;
                assert(fn_name@.contains('_'));
                assert(k == i as int);
            }
            let prefix = fn_name.substring_char(0, i);
            let mut s = String::from_str(prefix);
            s.append("_free_string");
            return Some(s);
        }
        i = i + 1;
    }
    proof {
        if fn_name@.contains('_') {
            let j = choose|j: int| 0 <= j < fn_name@.len() && fn_name@[j] == '_';
            assert(fn_name@[j] == '_');
        }
    }
    None
}

/// DLL loader: the libraries loaded by name, and where to look for them.
pub struct DllLoader {
    libraries: StrMap<Library>,
    search_paths: Vec<PathBuf>,
}

impl DllLoader {
    /// The loaded libraries, by name.
    pub closed spec fn loaded(&self) -> Map<Seq<char>, Library> {
        self.libraries@
    }

    /// The search paths, in the order they were added.
    pub closed spec fn search_paths(&self) -> Seq<PathBuf> {
        self.search_paths@
    }

    /// A loader with no libraries and no search paths.
    pub fn new() -> (l: Self)
        ensures
            l.loaded() == Map::<Seq<char>, Library>::empty(),
            l.search_paths() == Seq::<PathBuf>::empty(),
    {
        DllLoader { libraries: StrMap::new(), search_paths: Vec::new() }
    }

    /// Add DLL search path.
    pub fn add_search_path(&mut self, path: PathBuf)
        ensures
            final(self).search_paths() == old(self).search_paths().push(path),
            final(self).loaded() == old(self).loaded(),
    {
        self.search_paths.push(path);
    }

    /// Keep `library`, opened from disk, under `name`; a library loaded
    /// before under that name is dropped.
    pub fn load(&mut self, name: &str, library: Library)
        ensures
            final(self).loaded() == old(self).loaded().insert(name@, library),
            final(self).search_paths() == old(self).search_paths(),
    {
        self.libraries.insert(String::from_str(name), library);
    }

    /// Unload DLL: forget the library kept under `name`, if any.
    pub fn unload(&mut self, name: &str) -> (r: FrameworkResult<()>)
        ensures
            r is Ok,
            final(self).loaded() == old(self).loaded().remove(name@),
            final(self).search_paths() == old(self).search_paths(),
    {
        self.libraries.remove(name);
        Ok(())
    }

    /// The library kept under `name`.
    pub fn get_library(&self, name: &str) -> (r: FrameworkResult<&Library>)
        ensures
            self.loaded().contains_key(name@) ==> (r matches Ok(lib) && *lib == self.loaded()[name@]),
            !self.loaded().contains_key(name@) ==> (r matches Err(FrameworkError::InterfaceError(m))
                && m@ == not_loaded_message(name@)),
    {
        match self.libraries.get(name) {
            Some(lib) => Ok(lib),
            None => {
                let mut m = String::from_str("DLL '");
                m.append(name);
                m.append("' not loaded");
                Err(FrameworkError::InterfaceError(m))
            },
        }
    }

    /// Check if DLL is loaded.
    pub fn is_loaded(&self, name: &str) -> (b: bool)
        ensures
            b == self.loaded().contains_key(name@),
    {
        self.libraries.contains_key(name)
    }

    /// Get list of loaded DLLs: each name once, in no promised order.
    pub fn list_loaded(&self) -> (names: Vec<String>)
        ensures
            forall|i: int| 0 <= i < names@.len() ==> self.loaded().contains_key(#[trigger] names@[i]@),
            forall|k: Seq<char>| #[trigger] self.loaded().contains_key(k)
                ==> exists|i: int| 0 <= i < names@.len() && names@[i]@ == k,
            forall|i: int, j: int| 0 <= i < names@.len() && 0 <= j < names@.len() && i != j
                ==> names@[i]@ != names@[j]@,
    {
        let names = self.libraries.keys();
        proof {
            self.libraries.lemma_keys();
            assert forall|k: Seq<char>| #[trigger] self.loaded().contains_key(k)
                implies exists|i: int| 0 <= i < names@.len() && names@[i]@ == k by {
                let i = self.libraries.keys_seq().index_of(k);
                assert(names@[i]@ == k);
            }
            assert forall|i: int| 0 <= i < names@.len() implies self.loaded().contains_key(
                #[trigger] names@[i]@,
            ) by {
                assert(self.libraries.keys_seq()[i] == names@[i]@);
            }
        }
        names
    }

    /// Get search paths, in the order they were added.
    pub fn get_search_paths(&self) -> (paths: Vec<PathBuf>)
        ensures
            paths@ == self.search_paths(),
    {
        let mut paths: Vec<PathBuf> = Vec::new();
        let n = self.search_paths.len();
        let mut i: usize = 0;
        while i < n
            invariant
                n == self.search_paths@.len(),
                i <= n,
                paths@ == self.search_paths@.take(i as int),
            decreases n - i,
        {
            paths.push(clone_path(&self.search_paths[i]));
            proof {
                assert(self.search_paths@.take(i + 1) =~= self.search_paths@.take(i as int).push(
                    self.search_paths@[i as int],
                ));
            }
            i = i + 1;
        }
        proof {
            assert(self.search_paths@.take(n as int) =~= self.search_paths@);
        }
        paths
    }
}

impl Default for DllLoader {
    fn default() -> (l: Self)
        ensures
            l.loaded() == Map::<Seq<char>, Library>::empty(),
            l.search_paths() == Seq::<PathBuf>::empty(),
    {
        DllLoader::new()
    }
}

} // verus!
