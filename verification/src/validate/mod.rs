//! `lacon validate`: which validator a file goes to, and what each reports.
//!
//! A file whose top level has both `id` and `match` is a rule file; any
//! other file is a configuration file, of the project layer when its path
//! has a `.lacon` component and of the user layer otherwise. A file whose
//! top level cannot be probed is a parse error. Reading the file and
//! parsing its YAML happen outside this library; their outcomes arrive here
//! as plain values. An empty result means the file is valid.

use vstd::prelude::*;

use crate::config::{layer_outcome, parse_partial, ConfigLayer, ErrorView, LayerRead, ParseFailure};
use crate::error::{validation_error_view, validation_errors_view, ErrorCategory, ValidationError};
use crate::rules::schema::RuleFile;

verus! {

/// Which top-level keys a file has.
#[derive(Debug, Clone, Copy)]
pub struct TopLevelKeys {
    pub has_id: bool,
    pub has_match: bool,
}

/// The validator a file goes to.
#[derive(Debug, Clone, Copy, PartialEq, Eq)]
pub enum FileKind {
    Rule,
    Config(ConfigLayer),
}

/// The pieces of `p` between `/` characters (`[p]` when there is none).
pub open spec fn path_pieces(p: Seq<char>) -> Seq<Seq<char>>
    decreases p.len(),
{
    if p.len() == 0 {
        seq![Seq::empty()]
    } else if p.last() == '/' {
        path_pieces(p.drop_last()).push(Seq::empty())
    } else {
        let s = path_pieces(p.drop_last());
        s.update(s.len() - 1, s.last().push(p.last()))
    }
}

/// Whether the path `p` has a component named `name`.
pub open spec fn has_component(p: Seq<char>, name: Seq<char>) -> bool {
    path_pieces(p).contains(name)
}

/// The layer a configuration file at `p` is assumed to belong to.
pub open spec fn config_layer_of(p: Seq<char>) -> ConfigLayer {
    if has_component(p, ".lacon"@) {
        ConfigLayer::Project
    } else {
        ConfigLayer::User
    }
}

proof fn lemma_path_pieces_nonempty(p: Seq<char>)
    ensures
        path_pieces(p).len() >= 1,
    decreases p.len(),
{
    if p.len() > 0 {
        lemma_path_pieces_nonempty(p.drop_last());
    }
}

/// Infers the layer of a configuration file from its path: project when a
/// component is `.lacon`, else user.
pub fn infer_config_layer(path: &str) -> (l: ConfigLayer)
    ensures
        l == config_layer_of(path@),
{
    let ghost p = path@;
    let target = String::from_str(".lacon");
    let mut found = false;
    let mut cur = String::new();
    let mut seen: Vec<String> = Vec::new();
    assert(p.take(0) =~= Seq::<char>::empty());
    for c in it: path.chars()
        invariant
            it.seq() == p,
            target@ == ".lacon"@,
            path_pieces(p.take(it.index() as int)) == crate::text::strs_view(seen@).push(cur@),
            found == crate::text::strs_view(seen@).contains(".lacon"@),
    {
        let ghost i = it.index();
        let ghost s0 = crate::text::strs_view(seen@);
        proof {
            assert(p.take(i + 1).drop_last() =~= p.take(i as int));
            assert(p.take(i + 1).last() == c);
            lemma_path_pieces_nonempty(p.take(i as int));
        }
        if c == '/' {
            if cur == target {
                found = true;
            }
            let mut done = String::new();
            std::mem::swap(&mut done, &mut cur);
            seen.push(done);
            proof {
                assert(crate::text::strs_view(seen@) =~= s0.push(done@));
                assert(cur@ =~= Seq::<char>::empty());
                if !found {
                    assert forall|k: int| 0 <= k < s0.len() + 1 implies #[trigger] s0.push(done@)[k] != ".lacon"@ by {
                        if k < s0.len() {
                            assert(s0[k] == s0.push(done@)[k]);
                        }
                    }
                } else if done@ == ".lacon"@ {
                    assert(s0.push(done@)[s0.len() as int] == ".lacon"@);
                } else {
                    let k = choose|k: int| 0 <= k < s0.len() && s0[k] == ".lacon"@;
                    assert(s0.push(done@)[k] == ".lacon"@);
                }
            }
        } else {
            crate::text::push_char(&mut cur, c);
            proof {
                let s = path_pieces(p.take(i as int));
                assert(s.update(s.len() - 1, s.last().push(c)) =~= s0.push(cur@));
            }
        }
    }
    assert(p.take(p.len() as int) =~= p);
    let ghost s0 = crate::text::strs_view(seen@);
    let last_is = cur == target;
    proof {
        let all = s0.push(cur@);
        assert(path_pieces(p) == all);
        if found || last_is {
            if last_is {
                assert(all[s0.len() as int] == ".lacon"@);
            } else {
                let k = choose|k: int| 0 <= k < s0.len() && s0[k] == ".lacon"@;
                assert(all[k] == ".lacon"@);
            }
        } else {
            assert forall|k: int| 0 <= k < all.len() implies #[trigger] all[k] != ".lacon"@ by {
                if k < s0.len() {
                    assert(s0[k] == all[k]);
                }
            }
        }
    }
    if found || last_is {
        ConfigLayer::Project
    } else {
        ConfigLayer::User
    }
}

/// The validator a file goes to, or the error when its top level could not
/// be probed.
pub open spec fn dispatch_outcome(path: Seq<char>, probe: Result<TopLevelKeys, ParseFailure>) -> Result<FileKind, ErrorView> {
    match probe {
        Ok(k) => if k.has_id && k.has_match {
            Ok(FileKind::Rule)
        } else {
            Ok(FileKind::Config(config_layer_of(path)))
        },
        Err(f) => Err((ErrorCategory::ParseError, "<probe>"@, f.line, f.message@)),
    }
}

/// Chooses the validator for the file at `path` from its top-level probe
/// (see `dispatch_outcome`).
pub fn dispatch(path: &str, probe: Result<TopLevelKeys, ParseFailure>) -> (r: Result<FileKind, ValidationError>)
    ensures
        match dispatch_outcome(path@, probe) {
            Ok(k) => r == Ok::<FileKind, ValidationError>(k),
            Err(e) => r matches Err(err) && validation_error_view(err) == e,
        },
{
    match probe {
        Ok(k) => {
            if k.has_id && k.has_match {
                Ok(FileKind::Rule)
            } else {
                Ok(FileKind::Config(infer_config_layer(path)))
            }
        },
        Err(f) => Err(ValidationError::ParseError { path: String::from_str("<probe>"), line: f.line, message: f.message }),
    }
}

/// What validating a rule file reports: nothing when it parsed, else its error.
pub fn validate_rule(parsed: Result<RuleFile, ValidationError>) -> (errs: Vec<ValidationError>)
    ensures
        match parsed {
            Ok(_) => errs@.len() == 0,
            Err(e) => errs@ == seq![e],
        },
{
    match parsed {
        Ok(_rule) => Vec::new(),
        Err(e) => {
            let mut v: Vec<ValidationError> = Vec::new();
            v.push(e);
            assert(v@ =~= seq![e]);
            v
        },
    }
}

/// What validating a configuration file of `layer` reports: nothing when the
/// layer is accepted, else its error (see `layer_outcome`).
pub fn validate_config(path: &String, layer: ConfigLayer, read: LayerRead) -> (errs: Vec<ValidationError>)
    ensures
        match layer_outcome(path@, layer, read) {
            Ok(_) => errs@.len() == 0,
            Err(e) => validation_errors_view(errs@) == seq![e],
        },
{
    match parse_partial(path, layer, read) {
        Ok(_) => Vec::new(),
        Err(es) => es,
    }
}

/// `c` stands in `p` at index `i` as a whole `/`-separated component: the
/// characters `p[i..i + |c|]` are `c`, with a `/` or the start of `p` before
/// them and a `/` or the end of `p` after them.
pub open spec fn component_at(p: Seq<char>, i: int, c: Seq<char>) -> bool {
    &&& 0 <= i
    &&& i + c.len() <= p.len()
    &&& p.subrange(i, i + c.len()) == c
    &&& (i == 0 || p[i - 1] == '/')
    &&& (i + c.len() == p.len() || p[i + c.len()] == '/')
}

/// `c` stands in `p` as a whole component that is followed by a `/`.
pub open spec fn inner_component(p: Seq<char>, c: Seq<char>) -> bool {
    exists|i: int| #[trigger] component_at(p, i, c) && i + c.len() < p.len()
}

proof fn lemma_pieces_are_components(p: Seq<char>)
    ensures
        path_pieces(p).len() >= 1,
        component_at(p, p.len() - path_pieces(p).last().len(), path_pieces(p).last()),
        forall|k: int| 0 <= k < path_pieces(p).len() - 1 ==> inner_component(p, #[trigger] path_pieces(p)[k]),
    decreases p.len(),
{
    if p.len() == 0 {
        assert(p.subrange(0, 0) =~= Seq::<char>::empty());
    } else {
        let q = p.drop_last();
        let x = p.last();
        lemma_pieces_are_components(q);
        assert(q.push(x) =~= p);
        let pq = path_pieces(q);
        let pp = path_pieces(p);
        let lq = pq.last();
        let sq = q.len() - lq.len();
        // Old pieces other than the last keep their place.
        assert forall|k: int| 0 <= k < pq.len() - 1 implies inner_component(p, #[trigger] pq[k]) by {
            let i = choose|i: int| #[trigger] component_at(q, i, pq[k]) && i + pq[k].len() < q.len();
            assert(p.subrange(i, i + pq[k].len()) =~= q.subrange(i, i + pq[k].len()));
            if i > 0 {
                assert(p[i - 1] == q[i - 1]);
            }
            assert(p[i + pq[k].len()] == q[i + pq[k].len()]);
            assert(component_at(p, i, pq[k]));
            assert(inner_component(p, pq[k]));
        }
        if x == '/' {
            assert(pp == pq.push(Seq::empty()));
            assert(p.subrange(p.len() as int, p.len() as int) =~= Seq::<char>::empty());
            assert(component_at(p, p.len() - pp.last().len(), pp.last()));
            assert forall|k: int| 0 <= k < pp.len() - 1 implies inner_component(p, #[trigger] pp[k]) by {
                assert(pp[k] == pq[k]);
                if k == pq.len() - 1 {
                    assert(p.subrange(sq, sq + lq.len()) =~= q.subrange(sq, sq + lq.len()));
                    if sq > 0 {
                        assert(p[sq - 1] == q[sq - 1]);
                    }
                    assert(component_at(p, sq, pq[k]));
                    assert(inner_component(p, pq[k]));
                } else {
                    assert(inner_component(p, pq[k]));
                }
            }
        } else {
            let nl = lq.push(x);
            assert(pp == pq.update(pq.len() - 1, nl));
            assert(p.subrange(sq, sq + nl.len()) =~= q.subrange(sq, sq + lq.len()).push(x));
            if sq > 0 {
                assert(p[sq - 1] == q[sq - 1]);
            }
            assert(component_at(p, p.len() - pp.last().len(), pp.last()));
            assert forall|k: int| 0 <= k < pp.len() - 1 implies inner_component(p, #[trigger] pp[k]) by {
                assert(pp[k] == pq[k]);
                assert(inner_component(p, pq[k]));
            }
        }
    }
}

proof fn lemma_pieces_concat(a: Seq<char>, b: Seq<char>)
    ensures
        path_pieces(a + seq!['/'] + b) == path_pieces(a) + path_pieces(b),
    decreases b.len(),
{
    let ab = a + seq!['/'] + b;
    lemma_path_pieces_nonempty(a);
    if b.len() == 0 {
        assert(ab.drop_last() =~= a);
        assert(ab.last() == '/');
        assert(path_pieces(a).push(Seq::empty()) =~= path_pieces(a) + seq![Seq::<char>::empty()]);
    } else {
        lemma_pieces_concat(a, b.drop_last());
        assert(ab.drop_last() =~= a + seq!['/'] + b.drop_last());
        assert(ab.last() == b.last());
        lemma_path_pieces_nonempty(b.drop_last());
        let pa = path_pieces(a);
        let pb = path_pieces(b.drop_last());
        if b.last() == '/' {
            assert((pa + pb).push(Seq::empty()) =~= pa + pb.push(Seq::empty()));
        } else {
            let s = pa + pb;
            assert(s.last() == pb.last());
            assert(s.update(s.len() - 1, s.last().push(b.last())) =~= pa + pb.update(pb.len() - 1, pb.last().push(b.last())));
        }
    }
}

proof fn lemma_pieces_no_slash(c: Seq<char>)
    requires
        !c.contains('/'),
    ensures
        path_pieces(c) == seq![c],
    decreases c.len(),
{
    if c.len() == 0 {
        assert(c =~= Seq::<char>::empty());
    } else {
        let d = c.drop_last();
        assert(!d.contains('/')) by {
            if d.contains('/') {
                let k = choose|k: int| 0 <= k < d.len() && d[k] == '/';
                assert(c[k] == '/');
            }
        }
        lemma_pieces_no_slash(d);
        assert(c.last() != '/') by {
            if c.last() == '/' {
                assert(c[c.len() - 1] == '/');
            }
        }
        assert(d.push(c.last()) =~= c);
    }
}

/// A configuration file belongs to the project layer exactly when one of the
/// `/`-separated components of its path is `.lacon`; any other path (such as
/// `~/.config/lacon/config.yaml`) is a user-layer file.
pub proof fn law_project_layer_iff_lacon_component(p: Seq<char>)
    ensures
        config_layer_of(p) == ConfigLayer::Project <==> exists|i: int| component_at(p, i, ".lacon"@),
{
    let name = ".lacon"@;
    reveal_strlit(".lacon");
    lemma_pieces_are_components(p);
    let pp = path_pieces(p);
    if config_layer_of(p) == ConfigLayer::Project {
        assert(pp.contains(name));
        let k = choose|k: int| 0 <= k < pp.len() && pp[k] == name;
        if k < pp.len() - 1 {
            assert(inner_component(p, pp[k]));
            let i = choose|i: int| #[trigger] component_at(p, i, pp[k]) && i + pp[k].len() < p.len();
            assert(component_at(p, i, name));
        } else {
            assert(component_at(p, p.len() - pp.last().len(), name));
        }
    }
    if exists|i: int| component_at(p, i, name) {
        let i = choose|i: int| component_at(p, i, name);
        let e = i + name.len();
        assert(!name.contains('/')) by {
            if name.contains('/') {
                let k = choose|k: int| 0 <= k < name.len() && name[k] == '/';
            }
        }
        lemma_pieces_no_slash(name);
        // The pieces of the part from `i` on start with `.lacon`.
        let rest = p.skip(i);
        let rp = if e == p.len() {
            assert(rest =~= name);
            seq![name]
        } else {
            let b = p.skip(e + 1);
            assert(rest =~= name + seq!['/'] + b);
            lemma_pieces_concat(name, b);
            seq![name] + path_pieces(b)
        };
        assert(path_pieces(rest) == rp);
        assert(rp[0] == name);
        if i == 0 {
            assert(rest =~= p);
            assert(pp.contains(name));
        } else {
            let a = p.take(i - 1);
            assert(p =~= a + seq!['/'] + rest);
            lemma_pieces_concat(a, rest);
            lemma_path_pieces_nonempty(a);
            assert(pp[path_pieces(a).len() as int] == name);
        }
    }
}

} // verus!
