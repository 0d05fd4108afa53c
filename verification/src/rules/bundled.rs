//! The bundled rules archive: rule files shipped inside the binary, by name.
//!
//! The archive's contents are embedded at build time outside this library;
//! here it is a list of `(file name, bytes)` entries. Only `.yaml` files
//! count as rules.

use vstd::prelude::*;

verus! {

/// The embedded rule files, as `(name, bytes)` entries in archive order.
#[derive(Debug, Clone)]
pub struct BundledRules {
    files: Vec<(String, Vec<u8>)>,
}

/// Whether a file name ends in `.yaml`.
pub open spec fn is_yaml_name(name: Seq<char>) -> bool {
    name.len() >= 5 && name.subrange(name.len() - 5, name.len() as int) == ".yaml"@
}

/// The `.yaml` names among `names`, in order.
pub open spec fn yaml_names(names: Seq<Seq<char>>) -> Seq<Seq<char>> {
    names.filter(|n: Seq<char>| is_yaml_name(n))
}

/// Whether `name` ends in `.yaml`.
fn has_yaml_suffix(name: &str) -> (b: bool)
    ensures
        b == is_yaml_name(name@),
{
    proof { reveal_strlit(".yaml"); }
    let cs = crate::text::to_chars(name);
    let n = cs.len();
    if n < 5 {
        return false;
    }
    let r = cs[n - 5] == '.' && cs[n - 4] == 'y' && cs[n - 3] == 'a' && cs[n - 2] == 'm' && cs[n - 1] == 'l';
    proof {
        let tail = name@.subrange(n - 5, n as int);
        if r {
            assert(tail =~= ".yaml"@);
        } else {
            assert(tail != ".yaml"@) by {
                if tail == ".yaml"@ {
                    assert(tail[0] == '.' && tail[1] == 'y' && tail[2] == 'a' && tail[3] == 'm' && tail[4] == 'l');
                }
            }
        }
    }
    r
}

impl BundledRules {
    /// The entries' names, in archive order.
    pub closed spec fn names(&self) -> Seq<Seq<char>> {
        self.files@.map_values(|f: (String, Vec<u8>)| f.0@)
    }

    /// The bytes of the first entry named `name`, if any.
    pub closed spec fn lookup(&self, name: Seq<char>) -> Option<Seq<u8>> {
        first_match(self.files@, name)
    }

    /// An archive holding `files`.
    pub fn new(files: Vec<(String, Vec<u8>)>) -> (r: Self)
        ensures
            r.names() == files@.map_values(|f: (String, Vec<u8>)| f.0@),
            forall|name: Seq<char>| #[trigger] r.lookup(name) == first_match(files@, name),
    {
        BundledRules { files }
    }

    /// The names of all entries, in archive order.
    pub fn iter(&self) -> (names: Vec<String>)
        ensures
            crate::text::strs_view(names@) == self.names(),
    {
        let mut out: Vec<String> = Vec::new();
        let mut i: usize = 0;
        while i < self.files.len()
            invariant
                i <= self.files@.len(),
                crate::text::strs_view(out@) == self.names().take(i as int),
            decreases self.files@.len() - i,
        {
            let ghost o0 = out@;
            out.push(self.files[i].0.clone());
            assert(crate::text::strs_view(out@) =~= crate::text::strs_view(o0).push(self.files@[i as int].0@));
            assert(self.names().take(i + 1) =~= self.names().take(i as int).push(self.files@[i as int].0@));
            i = i + 1;
        }
        assert(self.names().take(self.files@.len() as int) =~= self.names());
        out
    }

    /// The bytes of the entry named `name`.
    pub fn get(&self, name: &str) -> (r: Option<Vec<u8>>)
        ensures
            match self.lookup(name@) {
                Some(b) => r matches Some(v) && v@ == b,
                None => r is None,
            },
    {
        let target = String::from_str(name);
        let mut i: usize = 0;
        while i < self.files.len()
            invariant
                i <= self.files@.len(),
                target@ == name@,
                forall|j: int| 0 <= j < i ==> self.files@[j].0@ != name@,
            decreases self.files@.len() - i,
        {
            if self.files[i].0 == target {
                proof {
                    lemma_first_match_at(self.files@, name@, i as int);
                }
                return Some(vstd::slice::slice_to_vec(self.files[i].1.as_slice()));
            }
            i = i + 1;
        }
        proof {
            lemma_first_match_none(self.files@, name@);
        }
        None
    }
}

impl BundledRules {
    /// `get` finds exactly the names `iter` lists: a name has bytes in the
    /// archive if and only if it is one of the entries' names.
    pub proof fn law_lookup_finds_listed_names(&self, name: Seq<char>)
        ensures
            self.lookup(name) is Some <==> self.names().contains(name),
    {
        lemma_first_match_some(self.files@, name);
        let ns = self.names();
        if self.names().contains(name) {
            let j = choose|j: int| 0 <= j < ns.len() && ns[j] == name;
            assert(self.files@[j].0@ == name);
        } else {
            assert forall|j: int| 0 <= j < self.files@.len() implies self.files@[j].0@ != name by {
                assert(ns[j] == self.files@[j].0@);
            }
        }
    }
}

proof fn lemma_first_match_some(files: Seq<(String, Vec<u8>)>, name: Seq<char>)
    ensures
        first_match(files, name) is Some <==> exists|j: int| 0 <= j < files.len() && #[trigger] files[j].0@ == name,
    decreases files.len(),
{
    if files.len() > 0 {
        lemma_first_match_some(files.drop_first(), name);
        if files[0].0@ != name {
            if exists|j: int| 0 <= j < files.len() && #[trigger] files[j].0@ == name {
                let j = choose|j: int| 0 <= j < files.len() && #[trigger] files[j].0@ == name;
                assert(files.drop_first()[j - 1].0@ == name);
            }
            if exists|j: int| 0 <= j < files.drop_first().len() && #[trigger] files.drop_first()[j].0@ == name {
                let j = choose|j: int| 0 <= j < files.drop_first().len() && #[trigger] files.drop_first()[j].0@ == name;
                assert(files[j + 1].0@ == name);
            }
        }
    }
}

/// The names of the bundled rule files: the archive's `.yaml` entries, in order.
pub fn iter_bundled(archive: &BundledRules) -> (names: Vec<String>)
    ensures
        crate::text::strs_view(names@) == yaml_names(archive.names()),
{
    let all = archive.iter();
    let ghost nv = crate::text::strs_view(all@);
    let mut out: Vec<String> = Vec::new();
    let mut i: usize = 0;
    while i < all.len()
        invariant
            i <= all@.len(),
            nv == crate::text::strs_view(all@),
            nv == archive.names(),
            crate::text::strs_view(out@) == yaml_names(nv.take(i as int)),
        decreases all@.len() - i,
    {
        let ghost o0 = out@;
        let keep = has_yaml_suffix(all[i].as_str());
        proof {
            reveal(Seq::filter);
            assert(nv.take(i + 1).drop_last() =~= nv.take(i as int));
            assert(nv.take(i + 1).last() == all@[i as int]@);
        }
        if keep {
            out.push(all[i].clone());
            assert(crate::text::strs_view(out@) =~= crate::text::strs_view(o0).push(all@[i as int]@));
        }
        i = i + 1;
    }
    assert(nv.take(all@.len() as int) =~= nv);
    out
}

/// The bytes of the bundled file `name`, if the archive holds it.
pub fn get_bundled(archive: &BundledRules, name: &str) -> (r: Option<Vec<u8>>)
    ensures
        match archive.lookup(name@) {
            Some(b) => r matches Some(v) && v@ == b,
            None => r is None,
        },
{
    archive.get(name)
}

/// The bytes of the first of `files` named `name`.
pub open spec fn first_match(files: Seq<(String, Vec<u8>)>, name: Seq<char>) -> Option<Seq<u8>>
    decreases files.len(),
{
    if files.len() == 0 {
        None
    } else if files[0].0@ == name {
        Some(files[0].1@)
    } else {
        first_match(files.drop_first(), name)
    }
}

proof fn lemma_first_match_at(files: Seq<(String, Vec<u8>)>, name: Seq<char>, k: int)
    requires
        0 <= k < files.len(),
        files[k].0@ == name,
        forall|j: int| 0 <= j < k ==> files[j].0@ != name,
    ensures
        first_match(files, name) == Some(files[k].1@),
    decreases k,
{
    if k > 0 {
        lemma_first_match_at(files.drop_first(), name, k - 1);
    }
}

proof fn lemma_first_match_none(files: Seq<(String, Vec<u8>)>, name: Seq<char>)
    requires
        forall|j: int| 0 <= j < files.len() ==> files[j].0@ != name,
    ensures
        first_match(files, name) is None,
    decreases files.len(),
{
    if files.len() > 0 {
        assert(files[0].0@ != name);
        lemma_first_match_none(files.drop_first(), name);
    }
}

} // verus!
