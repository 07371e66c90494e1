use vstd::prelude::*;
use vstd::string::*;

use crate::text::{
    compare_text, contains_char, decimal, decimal_spec, lemma_split_at_least_two,
    lemma_split_nonempty, pad_right, pad_right_spec, split_char, split_spec, starts_with_char,
    strings_view, TextOrder,
};

verus! {

/// Which half of a package a profile is generated for.
#[derive(Debug, Clone, Copy, PartialEq, Eq, Structural)]
pub enum PackageTarget {
    Editor,
    Runtime,
}

/// Whether a path segment is a named directory: not empty, not `.`, not `..`.
pub open spec fn is_normal_segment(seg: Seq<char>) -> bool {
    seg.len() > 0 && seg != "."@ && seg != ".."@
}

/// The named segments among `pieces`, in order.
pub open spec fn normal_segments(pieces: Seq<Seq<char>>) -> Seq<Seq<char>>
    decreases pieces.len(),
{
    if pieces.len() == 0 {
        Seq::empty()
    } else {
        let r = normal_segments(pieces.drop_last());
        if is_normal_segment(pieces.last()) {
            r.push(pieces.last())
        } else {
            r
        }
    }
}

/// The components of a Unix path with `.` and `..` left out: the root `/`
/// when the path is absolute, then each named directory or file. This is
/// what `Path::components` yields on Unix after those two are filtered out.
pub open spec fn path_components_spec(p: Seq<char>) -> Seq<Seq<char>> {
    let root: Seq<Seq<char>> = if p.len() > 0 && p[0] == '/' {
        seq![seq!['/']]
    } else {
        Seq::empty()
    };
    root + normal_segments(split_spec(p, '/'))
}

proof fn lemma_normal_segments(pieces: Seq<Seq<char>>)
    ensures
        forall|i: int| 0 <= i < normal_segments(pieces).len() ==> is_normal_segment(
            #[trigger] normal_segments(pieces)[i],
        ),
    decreases pieces.len(),
{
    if pieces.len() > 0 {
        let r = normal_segments(pieces.drop_last());
        lemma_normal_segments(pieces.drop_last());
        assert forall|i: int| 0 <= i < normal_segments(pieces).len() implies is_normal_segment(
            #[trigger] normal_segments(pieces)[i],
        ) by {
            if i < r.len() {
                assert(normal_segments(pieces)[i] == r[i]);
            }
        }
    }
}

/// The components of a path never include `.` or `..`: only the root `/`
/// and named segments, none of them empty.
pub proof fn law_components_have_no_dots(p: Seq<char>)
    ensures
        forall|i: int| 0 <= i < path_components_spec(p).len() ==> {
            let c = #[trigger] path_components_spec(p)[i];
            &&& c.len() > 0
            &&& c != "."@
            &&& c != ".."@
        },
{
    reveal_strlit(".");
    reveal_strlit("..");
    lemma_normal_segments(split_spec(p, '/'));
    let root: Seq<Seq<char>> = if p.len() > 0 && p[0] == '/' {
        seq![seq!['/']]
    } else {
        Seq::empty()
    };
    let rest = normal_segments(split_spec(p, '/'));
    assert forall|i: int| 0 <= i < path_components_spec(p).len() implies ({
        let c = #[trigger] path_components_spec(p)[i];
        &&& c.len() > 0
        &&& c != "."@
        &&& c != ".."@
    }) by {
        let c = path_components_spec(p)[i];
        if i < root.len() {
            assert(c == seq!['/']);
            assert(c[0] != "."@[0]);
            assert(c.len() != ".."@.len());
        } else {
            assert(c == rest[i - root.len()]);
        }
    }
}

fn is_dot_segment(seg: &str) -> (r: bool)
    ensures
        r == (seg@ == "."@ || seg@ == ".."@),
{
    compare_text(seg, ".") == TextOrder::Equal || compare_text(seg, "..") == TextOrder::Equal
}

/// The components of `path` that name something, `.` and `..` left out.
pub fn path_components(path: &str) -> (r: Vec<String>)
    ensures
        strings_view(r@) == path_components_spec(path@),
{
    let pieces = split_char(path, '/');
    let mut out: Vec<String> = Vec::new();
    let absolute = starts_with_char(path, '/');
    if absolute {
        out.push(String::from_str("/"));
        proof {
            reveal_strlit("/");
            assert("/"@ =~= seq!['/']);
        }
    }
    let ghost root = strings_view(out@);
    assert(root =~= (if path@.len() > 0 && path@[0] == '/' {
        seq![seq!['/']]
    } else {
        Seq::<Seq<char>>::empty()
    }));
    let ghost pv = strings_view(pieces@);
    let n = pieces.len();
    let mut i: usize = 0;
    assert(pv.take(0) =~= Seq::<Seq<char>>::empty());
    assert(strings_view(out@) =~= root + normal_segments(pv.take(0)));
    while i < n
        invariant
            n == pieces@.len(),
            pv == strings_view(pieces@),
            i <= n,
            strings_view(out@) == root + normal_segments(pv.take(i as int)),
        decreases n - i,
    {
        let piece = &pieces[i];
        proof {
            assert(pv.take(i + 1).drop_last() =~= pv.take(i as int));
            assert(pv.take(i + 1).last() == piece@);
        }
        let keep = piece.unicode_len() > 0 && !is_dot_segment(piece.as_str());
        if keep {
            let ghost before = strings_view(out@);
            out.push(piece.clone());
            assert(strings_view(out@) =~= before.push(piece@));
            assert(strings_view(out@) =~= root + normal_segments(pv.take(i + 1)));
        } else {
            assert(strings_view(out@) =~= root + normal_segments(pv.take(i + 1)));
        }
        i = i + 1;
    }
    assert(pv.take(n as int) =~= pv);
    out
}

/// The state of the `init` argument scan: the name and vendor seen so far
/// and the targets asked for, in order.
pub struct InitScan {
    pub name: Option<Seq<char>>,
    pub vendor: Option<Seq<char>>,
    pub targets: Seq<PackageTarget>,
}

/// A `--path` argument: the last component names the package, the one
/// before it the vendor unless it is the `packages` folder; neither
/// overrides what was already given.
pub open spec fn scan_path(st: InitScan, comps: Seq<Seq<char>>) -> InitScan {
    if comps.len() == 0 {
        st
    } else {
        InitScan {
            name: if st.name is None {
                Some(comps.last())
            } else {
                st.name
            },
            vendor: if comps.len() >= 2 && comps[comps.len() - 2] != "packages"@ && st.vendor is None {
                Some(comps[comps.len() - 2])
            } else {
                st.vendor
            },
            targets: st.targets,
        }
    }
}

/// A positional argument: `vendor/name` (or `vendor\name`) gives both,
/// a plain word gives the name; neither overrides what was already given,
/// and a vendor called `packages` is ignored.
pub open spec fn scan_value(st: InitScan, value: Seq<char>) -> InitScan {
    if value.contains('/') || value.contains('\\') {
        let parts = if value.contains('/') {
            split_spec(value, '/')
        } else {
            split_spec(value, '\\')
        };
        if parts.len() >= 2 {
            InitScan {
                name: if st.name is None {
                    Some(parts.last())
                } else {
                    st.name
                },
                vendor: if st.vendor is None && parts[parts.len() - 2] != "packages"@ {
                    Some(parts[parts.len() - 2])
                } else {
                    st.vendor
                },
                targets: st.targets,
            }
        } else {
            InitScan {
                name: if st.name is None {
                    Some(parts.last())
                } else {
                    st.name
                },
                ..st
            }
        }
    } else if st.name is None {
        InitScan { name: Some(value), ..st }
    } else {
        st
    }
}

/// The argument after position `i`, if there is one.
pub open spec fn next_arg(args: Seq<Seq<char>>, i: int) -> Option<Seq<char>> {
    if i + 1 < args.len() {
        Some(args[i + 1])
    } else {
        None
    }
}

/// Scans the `init` arguments from position `i` on; an option that starts
/// with `-` and is not known stops the scan and is returned as the error.
pub open spec fn init_scan(args: Seq<Seq<char>>, i: int, st: InitScan) -> Result<InitScan, Seq<char>>
    decreases args.len() + 2 - i,
{
    if i < 0 || i >= args.len() {
        Ok(st)
    } else {
        let a = args[i];
        if a == "--name"@ {
            init_scan(args, i + 2, InitScan { name: next_arg(args, i), ..st })
        } else if a == "--vendor"@ {
            init_scan(args, i + 2, InitScan { vendor: next_arg(args, i), ..st })
        } else if a == "--editor"@ {
            init_scan(args, i + 1, InitScan { targets: st.targets.push(PackageTarget::Editor), ..st })
        } else if a == "--runtime"@ {
            init_scan(
                args,
                i + 1,
                InitScan { targets: st.targets.push(PackageTarget::Runtime), ..st },
            )
        } else if a == "--path"@ {
            let st2 = match next_arg(args, i) {
                Some(p) => scan_path(st, path_components_spec(p)),
                None => st,
            };
            init_scan(args, i + 2, st2)
        } else if !(a.len() > 0 && a[0] == '-') {
            init_scan(args, i + 1, scan_value(st, a))
        } else {
            Err(a)
        }
    }
}

/// Two scan results agree on the error, or both succeed with the same name
/// and targets.
pub open spec fn agree_on_name_and_targets(r1: Result<InitScan, Seq<char>>, r2: Result<InitScan, Seq<char>>) -> bool {
    match (r1, r2) {
        (Err(a), Err(b)) => a == b,
        (Ok(x), Ok(y)) => x.name == y.name && x.targets == y.targets,
        _ => false,
    }
}

/// Two scan results agree on the error, or both succeed with the same vendor
/// and targets.
pub open spec fn agree_on_vendor_and_targets(r1: Result<InitScan, Seq<char>>, r2: Result<InitScan, Seq<char>>) -> bool {
    match (r1, r2) {
        (Err(a), Err(b)) => a == b,
        (Ok(x), Ok(y)) => x.vendor == y.vendor && x.targets == y.targets,
        _ => false,
    }
}

/// Two scan results agree on the error, or both succeed with the same
/// targets.
pub open spec fn agree_on_targets(r1: Result<InitScan, Seq<char>>, r2: Result<InitScan, Seq<char>>) -> bool {
    match (r1, r2) {
        (Err(a), Err(b)) => a == b,
        (Ok(x), Ok(y)) => x.targets == y.targets,
        _ => false,
    }
}

proof fn lemma_scan_shift(p: Seq<Seq<char>>, rest: Seq<Seq<char>>, i: int, st: InitScan)
    requires
        0 <= i,
    ensures
        init_scan(p + rest, i + p.len(), st) == init_scan(rest, i, st),
    decreases rest.len() + 2 - i,
{
    let a = p + rest;
    let j = i + p.len();
    if i < rest.len() {
        assert(a[j] == rest[i]);
        assert(next_arg(a, j) == next_arg(rest, i)) by {
            if i + 1 < rest.len() {
                assert(a[j + 1] == rest[i + 1]);
            }
        }
        let st_name = InitScan { name: next_arg(rest, i), ..st };
        let st_vendor = InitScan { vendor: next_arg(rest, i), ..st };
        let st_ed = InitScan { targets: st.targets.push(PackageTarget::Editor), ..st };
        let st_rt = InitScan { targets: st.targets.push(PackageTarget::Runtime), ..st };
        let st_path = match next_arg(rest, i) {
            Some(q) => scan_path(st, path_components_spec(q)),
            None => st,
        };
        lemma_scan_shift(p, rest, i + 1, st_ed);
        lemma_scan_shift(p, rest, i + 1, st_rt);
        lemma_scan_shift(p, rest, i + 1, scan_value(st, rest[i]));
        lemma_scan_shift(p, rest, i + 2, st_name);
        lemma_scan_shift(p, rest, i + 2, st_vendor);
        lemma_scan_shift(p, rest, i + 2, st_path);
    }
}

proof fn lemma_scan_vendor_irrelevant(args: Seq<Seq<char>>, i: int, s1: InitScan, s2: InitScan)
    requires
        s1.name == s2.name,
        s1.targets == s2.targets,
    ensures
        agree_on_name_and_targets(init_scan(args, i, s1), init_scan(args, i, s2)),
    decreases args.len() + 2 - i,
{
    if 0 <= i < args.len() {
        let a = args[i];
        if a == "--name"@ {
            lemma_scan_vendor_irrelevant(args, i + 2, InitScan { name: next_arg(args, i), ..s1 }, InitScan { name: next_arg(args, i), ..s2 });
        } else if a == "--vendor"@ {
            let t = InitScan { vendor: next_arg(args, i), ..s1 };
            assert(t == InitScan { vendor: next_arg(args, i), ..s2 });
            lemma_scan_vendor_irrelevant(args, i + 2, t, t);
        } else if a == "--editor"@ {
            lemma_scan_vendor_irrelevant(args, i + 1, InitScan { targets: s1.targets.push(PackageTarget::Editor), ..s1 }, InitScan { targets: s2.targets.push(PackageTarget::Editor), ..s2 });
        } else if a == "--runtime"@ {
            lemma_scan_vendor_irrelevant(args, i + 1, InitScan { targets: s1.targets.push(PackageTarget::Runtime), ..s1 }, InitScan { targets: s2.targets.push(PackageTarget::Runtime), ..s2 });
        } else if a == "--path"@ {
            match next_arg(args, i) {
                Some(q) => lemma_scan_vendor_irrelevant(args, i + 2, scan_path(s1, path_components_spec(q)), scan_path(s2, path_components_spec(q))),
                None => lemma_scan_vendor_irrelevant(args, i + 2, s1, s2),
            }
        } else if !(a.len() > 0 && a[0] == '-') {
            lemma_scan_vendor_irrelevant(args, i + 1, scan_value(s1, a), scan_value(s2, a));
        }
    }
}

proof fn lemma_scan_name_irrelevant(args: Seq<Seq<char>>, i: int, s1: InitScan, s2: InitScan)
    requires
        s1.vendor == s2.vendor,
        s1.targets == s2.targets,
    ensures
        agree_on_vendor_and_targets(init_scan(args, i, s1), init_scan(args, i, s2)),
    decreases args.len() + 2 - i,
{
    if 0 <= i < args.len() {
        let a = args[i];
        if a == "--name"@ {
            let t = InitScan { name: next_arg(args, i), ..s1 };
            assert(t == InitScan { name: next_arg(args, i), ..s2 });
            lemma_scan_name_irrelevant(args, i + 2, t, t);
        } else if a == "--vendor"@ {
            lemma_scan_name_irrelevant(args, i + 2, InitScan { vendor: next_arg(args, i), ..s1 }, InitScan { vendor: next_arg(args, i), ..s2 });
        } else if a == "--editor"@ {
            lemma_scan_name_irrelevant(args, i + 1, InitScan { targets: s1.targets.push(PackageTarget::Editor), ..s1 }, InitScan { targets: s2.targets.push(PackageTarget::Editor), ..s2 });
        } else if a == "--runtime"@ {
            lemma_scan_name_irrelevant(args, i + 1, InitScan { targets: s1.targets.push(PackageTarget::Runtime), ..s1 }, InitScan { targets: s2.targets.push(PackageTarget::Runtime), ..s2 });
        } else if a == "--path"@ {
            match next_arg(args, i) {
                Some(q) => lemma_scan_name_irrelevant(args, i + 2, scan_path(s1, path_components_spec(q)), scan_path(s2, path_components_spec(q))),
                None => lemma_scan_name_irrelevant(args, i + 2, s1, s2),
            }
        } else if !(a.len() > 0 && a[0] == '-') {
            lemma_scan_name_irrelevant(args, i + 1, scan_value(s1, a), scan_value(s2, a));
        }
    }
}

proof fn lemma_scan_targets_only(args: Seq<Seq<char>>, i: int, s1: InitScan, s2: InitScan)
    requires
        s1.targets == s2.targets,
    ensures
        agree_on_targets(init_scan(args, i, s1), init_scan(args, i, s2)),
    decreases args.len() + 2 - i,
{
    if 0 <= i < args.len() {
        let a = args[i];
        if a == "--name"@ {
            lemma_scan_targets_only(args, i + 2, InitScan { name: next_arg(args, i), ..s1 }, InitScan { name: next_arg(args, i), ..s2 });
        } else if a == "--vendor"@ {
            lemma_scan_targets_only(args, i + 2, InitScan { vendor: next_arg(args, i), ..s1 }, InitScan { vendor: next_arg(args, i), ..s2 });
        } else if a == "--editor"@ {
            lemma_scan_targets_only(args, i + 1, InitScan { targets: s1.targets.push(PackageTarget::Editor), ..s1 }, InitScan { targets: s2.targets.push(PackageTarget::Editor), ..s2 });
        } else if a == "--runtime"@ {
            lemma_scan_targets_only(args, i + 1, InitScan { targets: s1.targets.push(PackageTarget::Runtime), ..s1 }, InitScan { targets: s2.targets.push(PackageTarget::Runtime), ..s2 });
        } else if a == "--path"@ {
            match next_arg(args, i) {
                Some(q) => lemma_scan_targets_only(args, i + 2, scan_path(s1, path_components_spec(q)), scan_path(s2, path_components_spec(q))),
                None => lemma_scan_targets_only(args, i + 2, s1, s2),
            }
        } else if !(a.len() > 0 && a[0] == '-') {
            lemma_scan_targets_only(args, i + 1, scan_value(s1, a), scan_value(s2, a));
        }
    }
}

/// `--vendor` consumes the value after it: putting `--vendor v` in front of
/// the arguments changes neither the package name nor the targets nor any
/// error, so `v` is never read as the package name or as an option.
pub proof fn law_vendor_option_consumes_value(v: Seq<char>, rest: Seq<Seq<char>>, st: InitScan)
    ensures
        agree_on_name_and_targets(init_scan(seq!["--vendor"@, v] + rest, 0, st), init_scan(rest, 0, st)),
{
    let p = seq!["--vendor"@, v];
    let a = p + rest;
    reveal_strlit("--vendor");
    reveal_strlit("--name");
    assert(a[0] == "--vendor"@);
    assert(a[0] != "--name"@);
    assert(a[1] == v);
    assert(next_arg(a, 0) == Some(v));
    let t = InitScan { vendor: Some(v), ..st };
    lemma_scan_shift(p, rest, 0, t);
    lemma_scan_vendor_irrelevant(rest, 0, t, st);
}

/// For the whole `init` command: `--vendor v` in front of the arguments
/// never changes whether they are accepted, the error given, the package
/// name or the targets.
pub proof fn law_vendor_option_keeps_outcome(v: Seq<char>, rest: Seq<Seq<char>>)
    ensures
        init_outcome(seq!["--vendor"@, v] + rest) is Ok <==> init_outcome(rest) is Ok,
        init_outcome(seq!["--vendor"@, v] + rest) is Err ==> init_outcome(seq!["--vendor"@, v] + rest)
            == init_outcome(rest),
        init_outcome(seq!["--vendor"@, v] + rest) is Ok ==> {
            &&& init_outcome(seq!["--vendor"@, v] + rest)->Ok_0.1 == init_outcome(rest)->Ok_0.1
            &&& init_outcome(seq!["--vendor"@, v] + rest)->Ok_0.2 == init_outcome(rest)->Ok_0.2
        },
{
    law_vendor_option_consumes_value(v, rest, init_start());
}

/// `--name` consumes the value after it: putting `--name v` in front of the
/// arguments changes neither the vendor nor the targets nor any error.
pub proof fn law_name_option_consumes_value(v: Seq<char>, rest: Seq<Seq<char>>, st: InitScan)
    ensures
        agree_on_vendor_and_targets(init_scan(seq!["--name"@, v] + rest, 0, st), init_scan(rest, 0, st)),
{
    let p = seq!["--name"@, v];
    let a = p + rest;
    reveal_strlit("--name");
    assert(a[0] == "--name"@);
    assert(a[1] == v);
    assert(next_arg(a, 0) == Some(v));
    let t = InitScan { name: Some(v), ..st };
    lemma_scan_shift(p, rest, 0, t);
    lemma_scan_name_irrelevant(rest, 0, t, st);
}

/// `--path` consumes the value after it: putting `--path v` in front of the
/// arguments changes neither the targets nor any error, so a path that
/// starts with `-` is not taken for an option.
pub proof fn law_path_option_consumes_value(v: Seq<char>, rest: Seq<Seq<char>>, st: InitScan)
    ensures
        agree_on_targets(init_scan(seq!["--path"@, v] + rest, 0, st), init_scan(rest, 0, st)),
{
    let p = seq!["--path"@, v];
    let a = p + rest;
    reveal_strlit("--path");
    reveal_strlit("--name");
    reveal_strlit("--vendor");
    reveal_strlit("--editor");
    reveal_strlit("--runtime");
    assert(a[0] == "--path"@);
    assert(a[0] != "--name"@ && a[0] != "--vendor"@ && a[0] != "--editor"@ && a[0] != "--runtime"@);
    assert(a[1] == v);
    assert(next_arg(a, 0) == Some(v));
    let t = scan_path(st, path_components_spec(v));
    lemma_scan_shift(p, rest, 0, t);
    lemma_scan_targets_only(rest, 0, t, st);
}

/// What `magic_pkg init` is asked to create.
pub struct InitRequest {
    pub vendor: String,
    pub name: String,
    pub targets: Vec<PackageTarget>,
}

/// Why the `init` arguments were refused.
#[derive(Debug, Clone, PartialEq)]
pub enum InitError {
    /// An option that starts with `-` and is not known.
    UnknownOption(String),
    /// No package name was given in any form.
    MissingName,
}

/// The abstract value of an `InitError`.
pub enum InitErrorView {
    UnknownOption(Seq<char>),
    MissingName,
}

impl View for InitError {
    type V = InitErrorView;

    open spec fn view(&self) -> InitErrorView {
        match self {
            InitError::UnknownOption(o) => InitErrorView::UnknownOption(o@),
            InitError::MissingName => InitErrorView::MissingName,
        }
    }
}

impl View for InitRequest {
    type V = (Seq<char>, Seq<char>, Seq<PackageTarget>);

    open spec fn view(&self) -> (Seq<char>, Seq<char>, Seq<PackageTarget>) {
        (self.vendor@, self.name@, self.targets@)
    }
}

/// The scan state before the first argument.
pub open spec fn init_start() -> InitScan {
    InitScan { name: None, vendor: None, targets: Seq::empty() }
}

/// The outcome of `magic_pkg init` argument parsing: the vendor defaults to
/// `local`, and no target flag means both targets.
pub open spec fn init_outcome(args: Seq<Seq<char>>) -> Result<
    (Seq<char>, Seq<char>, Seq<PackageTarget>),
    InitErrorView,
> {
    match init_scan(args, 0, init_start()) {
        Err(bad) => Err(InitErrorView::UnknownOption(bad)),
        Ok(st) => match st.name {
            None => Err(InitErrorView::MissingName),
            Some(name) => Ok(
                (
                    match st.vendor {
                        Some(v) => v,
                        None => "local"@,
                    },
                    name,
                    if st.targets.len() == 0 {
                        seq![PackageTarget::Editor, PackageTarget::Runtime]
                    } else {
                        st.targets
                    },
                ),
            ),
        },
    }
}

/// The abstract value of an optional string.
pub open spec fn opt_view(o: Option<String>) -> Option<Seq<char>> {
    match o {
        Some(s) => Some(s@),
        None => None,
    }
}

fn scan_view(name: &Option<String>, vendor: &Option<String>, targets: &Vec<PackageTarget>) -> (r: Ghost<InitScan>)
    ensures
        r@ == (InitScan { name: opt_view(*name), vendor: opt_view(*vendor), targets: targets@ }),
{
    Ghost(InitScan { name: opt_view(*name), vendor: opt_view(*vendor), targets: targets@ })
}

fn arg_after(arguments: &[String], i: usize) -> (r: Option<String>)
    requires
        i < arguments@.len(),
    ensures
        opt_view(r) == next_arg(strings_view(arguments@), i as int),
{
    if arguments.len() - i > 1 {
        assert(strings_view(arguments@)[i + 1] == arguments@[i + 1]@);
        Some(arguments[i + 1].clone())
    } else {
        None
    }
}

fn apply_path(name: &mut Option<String>, vendor: &mut Option<String>, path: &str)
    ensures
        opt_view(*final(name)) == scan_path(
            InitScan { name: opt_view(*old(name)), vendor: opt_view(*old(vendor)), targets: Seq::empty() },
            path_components_spec(path@),
        ).name,
        opt_view(*final(vendor)) == scan_path(
            InitScan { name: opt_view(*old(name)), vendor: opt_view(*old(vendor)), targets: Seq::empty() },
            path_components_spec(path@),
        ).vendor,
{
    let comps = path_components(path);
    let n = comps.len();
    if n > 0 {
        if name.is_none() {
            *name = Some(comps[n - 1].clone());
        }
        if n >= 2 {
            let v = &comps[n - 2];
            if compare_text(v.as_str(), "packages") != TextOrder::Equal && vendor.is_none() {
                *vendor = Some(v.clone());
            }
        }
    }
}

fn apply_value(name: &mut Option<String>, vendor: &mut Option<String>, value: &str)
    ensures
        opt_view(*final(name)) == scan_value(
            InitScan { name: opt_view(*old(name)), vendor: opt_view(*old(vendor)), targets: Seq::empty() },
            value@,
        ).name,
        opt_view(*final(vendor)) == scan_value(
            InitScan { name: opt_view(*old(name)), vendor: opt_view(*old(vendor)), targets: Seq::empty() },
            value@,
        ).vendor,
{
    let has_slash = contains_char(value, '/');
    let has_backslash = contains_char(value, '\\');
    if has_slash || has_backslash {
        let parts = if has_slash {
            split_char(value, '/')
        } else {
            split_char(value, '\\')
        };
        proof {
            lemma_split_nonempty(value@, '/');
            lemma_split_nonempty(value@, '\\');
        }
        let n = parts.len();
        if n >= 2 {
            if name.is_none() {
                *name = Some(parts[n - 1].clone());
            }
            if vendor.is_none() && compare_text(parts[n - 2].as_str(), "packages") != TextOrder::Equal {
                *vendor = Some(parts[n - 2].clone());
            }
        } else {
            if name.is_none() {
                *name = Some(parts[n - 1].clone());
            }
        }
    } else if name.is_none() {
        *name = Some(String::from_str(value));
    }
}

/// Parses the arguments of `magic_pkg init` (those after the word `init`).
pub fn parse_init(arguments: &[String]) -> (r: Result<InitRequest, InitError>)
    ensures
        match r {
            Ok(req) => init_outcome(strings_view(arguments@)) == Ok::<_, InitErrorView>(req@),
            Err(e) => init_outcome(strings_view(arguments@)) == Err::<(Seq<char>, Seq<char>, Seq<PackageTarget>), _>(e@),
        },
{
    let ghost args = strings_view(arguments@);
    let mut name: Option<String> = None;
    let mut vendor: Option<String> = None;
    let mut targets: Vec<PackageTarget> = Vec::new();
    let mut index: usize = 0;
    let len = arguments.len();
    let ghost start = init_start();
    assert(opt_view(name) == start.name && opt_view(vendor) == start.vendor && targets@ =~= start.targets);
    while index < len
        invariant
            len == arguments@.len(),
            args == strings_view(arguments@),
            start == init_start(),
            init_scan(args, 0, start) == init_scan(
                args,
                index as int,
                InitScan { name: opt_view(name), vendor: opt_view(vendor), targets: targets@ },
            ),
        decreases len - index,
    {
        let arg = arguments[index].as_str();
        let ghost st = InitScan { name: opt_view(name), vendor: opt_view(vendor), targets: targets@ };
        assert(args[index as int] == arg@);
        let ghost i = index as int;
        if compare_text(arg, "--name") == TextOrder::Equal {
            name = arg_after(arguments, index);
            assert(init_scan(args, i, st) == init_scan(args, i + 2, InitScan { name: opt_view(name), ..st }));
            index = index + 1;
        } else if compare_text(arg, "--vendor") == TextOrder::Equal {
            vendor = arg_after(arguments, index);
            assert(init_scan(args, i, st) == init_scan(args, i + 2, InitScan { vendor: opt_view(vendor), ..st }));
            index = index + 1;
        } else if compare_text(arg, "--editor") == TextOrder::Equal {
            targets.push(PackageTarget::Editor);
            assert(init_scan(args, i, st) == init_scan(args, i + 1, InitScan { targets: targets@, ..st }));
        } else if compare_text(arg, "--runtime") == TextOrder::Equal {
            targets.push(PackageTarget::Runtime);
            assert(init_scan(args, i, st) == init_scan(args, i + 1, InitScan { targets: targets@, ..st }));
        } else if compare_text(arg, "--path") == TextOrder::Equal {
            let next = arg_after(arguments, index);
            if let Some(p) = next {
                apply_path(&mut name, &mut vendor, p.as_str());
            }
            assert(init_scan(args, i, st) == init_scan(args, i + 2, InitScan { name: opt_view(name), vendor: opt_view(vendor), targets: targets@ }));
            index = index + 1;
        } else if !starts_with_char(arg, '-') {
            apply_value(&mut name, &mut vendor, arg);
            assert(init_scan(args, i, st) == init_scan(args, i + 1, InitScan { name: opt_view(name), vendor: opt_view(vendor), targets: targets@ }));
        } else {
            assert(init_scan(args, index as int, st) == Err::<InitScan, Seq<char>>(arg@));
            return Err(InitError::UnknownOption(String::from_str(arg)));
        }
        if index < len {
            index = index + 1;
        } else {
            index = len;
        }
    }
    let ghost fin = InitScan { name: opt_view(name), vendor: opt_view(vendor), targets: targets@ };
    assert(init_scan(args, index as int, fin) == Ok::<InitScan, Seq<char>>(fin));
    match name {
        None => Err(InitError::MissingName),
        Some(n) => {
            let v = match vendor {
                Some(v) => v,
                None => {
                    proof {
                        reveal_strlit("local");
                    }
                    String::from_str("local")
                },
            };
            if targets.len() == 0 {
                targets = vec![PackageTarget::Editor, PackageTarget::Runtime];
            }
            Ok(InitRequest { vendor: v, name: n, targets })
        },
    }
}


/// A `magic_pkg` subcommand, chosen by the first argument.
#[derive(Debug, Clone, PartialEq)]
pub enum PkgCommand {
    Sync,
    Init,
    Remove,
    Enable,
    Disable,
    List,
    Help,
    Unknown(String),
}

/// The abstract value of a `PkgCommand`.
pub enum PkgCommandView {
    Sync,
    Init,
    Remove,
    Enable,
    Disable,
    List,
    Help,
    Unknown(Seq<char>),
}

impl View for PkgCommand {
    type V = PkgCommandView;

    open spec fn view(&self) -> PkgCommandView {
        match self {
            PkgCommand::Sync => PkgCommandView::Sync,
            PkgCommand::Init => PkgCommandView::Init,
            PkgCommand::Remove => PkgCommandView::Remove,
            PkgCommand::Enable => PkgCommandView::Enable,
            PkgCommand::Disable => PkgCommandView::Disable,
            PkgCommand::List => PkgCommandView::List,
            PkgCommand::Help => PkgCommandView::Help,
            PkgCommand::Unknown(c) => PkgCommandView::Unknown(c@),
        }
    }
}

/// The subcommand named by `first`; no argument at all means `sync`.
pub open spec fn command_for(first: Option<Seq<char>>) -> PkgCommandView {
    match first {
        None => PkgCommandView::Sync,
        Some(c) => if c == "sync"@ {
            PkgCommandView::Sync
        } else if c == "init"@ {
            PkgCommandView::Init
        } else if c == "remove"@ || c == "rm"@ {
            PkgCommandView::Remove
        } else if c == "enable"@ {
            PkgCommandView::Enable
        } else if c == "disable"@ {
            PkgCommandView::Disable
        } else if c == "list"@ {
            PkgCommandView::List
        } else if c == "help"@ || c == "--help"@ || c == "-h"@ {
            PkgCommandView::Help
        } else {
            PkgCommandView::Unknown(c)
        },
    }
}

fn text_is(a: &str, b: &str) -> (r: bool)
    ensures
        r == (a@ == b@),
{
    compare_text(a, b) == TextOrder::Equal
}

/// Chooses the subcommand from the arguments (those after the program name).
pub fn parse_command(arguments: &[String]) -> (r: PkgCommand)
    ensures
        r@ == command_for(
            if arguments@.len() == 0 {
                None
            } else {
                Some(arguments@[0]@)
            },
        ),
{
    if arguments.len() == 0 {
        return PkgCommand::Sync;
    }
    let c = arguments[0].as_str();
    if text_is(c, "sync") {
        PkgCommand::Sync
    } else if text_is(c, "init") {
        PkgCommand::Init
    } else if text_is(c, "remove") || text_is(c, "rm") {
        PkgCommand::Remove
    } else if text_is(c, "enable") {
        PkgCommand::Enable
    } else if text_is(c, "disable") {
        PkgCommand::Disable
    } else if text_is(c, "list") {
        PkgCommand::List
    } else if text_is(c, "help") || text_is(c, "--help") || text_is(c, "-h") {
        PkgCommand::Help
    } else {
        PkgCommand::Unknown(String::from_str(c))
    }
}

/// The vendor and name that a package target names: `vendor/name`, or a
/// bare name in the `local` vendor.
pub open spec fn target_spec(target: Seq<char>) -> (Seq<char>, Seq<char>) {
    if target.contains('/') {
        (split_spec(target, '/')[0], split_spec(target, '/')[1])
    } else {
        ("local"@, target)
    }
}

/// Splits a package target into vendor and name.
pub fn parse_target(target: &str) -> (r: (String, String))
    ensures
        (r.0@, r.1@) == target_spec(target@),
{
    if contains_char(target, '/') {
        let parts = split_char(target, '/');
        proof {
            lemma_split_at_least_two(target@, '/');
            assert(strings_view(parts@)[0] == parts@[0]@);
            assert(strings_view(parts@)[1] == parts@[1]@);
        }
        (parts[0].clone(), parts[1].clone())
    } else {
        proof {
            reveal_strlit("local");
        }
        (String::from_str("local"), String::from_str(target))
    }
}

/// The package target of `remove`, `enable` or `disable`: the first of
/// their arguments, if there is one.
pub fn target_argument(arguments: &[String]) -> (r: Option<(String, String)>)
    ensures
        arguments@.len() == 0 <==> r is None,
        r matches Some(t) ==> (t.0@, t.1@) == target_spec(arguments@[0]@),
{
    if arguments.len() == 0 {
        None
    } else {
        Some(parse_target(arguments[0].as_str()))
    }
}

/// The message for a `remove`, `enable` or `disable` without a target;
/// `action` is the subcommand's name.
pub fn missing_target_message(action: &str) -> (r: String)
    ensures
        r@ == "Package target is required. Example: magic_pkg "@ + action@ + " local/my_tool"@,
{
    String::from_str("Package target is required. Example: magic_pkg ").concat(action).concat(
        " local/my_tool",
    )
}

/// The message for a subcommand that does not exist.
pub fn unknown_command_message(command: &str) -> (r: String)
    ensures
        r@ == "Unknown command '"@ + command@ + "'. Run 'magic_pkg help'."@,
{
    String::from_str("Unknown command '").concat(command).concat("'. Run 'magic_pkg help'.")
}

impl InitError {
    /// The message that `magic_pkg` prints for this error.
    pub fn message(&self) -> (r: String)
        ensures
            r@ == match self@ {
                InitErrorView::UnknownOption(o) => "Unknown init option '"@ + o + "'."@,
                InitErrorView::MissingName =>
                    "Package name is required. Example: magic_pkg init my_tool OR magic_pkg init my_studio/my_tool"@,
            },
    {
        match self {
            InitError::UnknownOption(o) => String::from_str("Unknown init option '").concat(
                o.as_str(),
            ).concat("'."),
            InitError::MissingName => String::from_str(
                "Package name is required. Example: magic_pkg init my_tool OR magic_pkg init my_studio/my_tool",
            ),
        }
    }
}

/// The tag that `list` shows for a package's state.
pub fn status_tag(enabled: bool) -> (r: &'static str)
    ensures
        r@ == if enabled {
            "[enabled]"@
        } else {
            "[disabled]"@
        },
{
    if enabled {
        "[enabled]"
    } else {
        "[disabled]"
    }
}

/// One row of the `list` table: the three columns left-aligned in fields of
/// 30, 10 and 10 characters, separated by one space.
pub open spec fn package_row_spec(id: Seq<char>, version: Seq<char>, status: Seq<char>) -> Seq<char> {
    pad_right_spec(id, 30) + " "@ + pad_right_spec(version, 10) + " "@ + pad_right_spec(status, 10)
}

/// Formats one row of the `list` table; the header row is this with the
/// column titles.
pub fn package_row(id: &str, version: &str, status: &str) -> (r: String)
    ensures
        r@ == package_row_spec(id@, version@, status@),
{
    let a = pad_right(id, 30);
    let b = pad_right(version, 10);
    let c = pad_right(status, 10);
    a.concat(" ").concat(b.as_str()).concat(" ").concat(c.as_str())
}

/// The line that `sync` prints after it has written the profiles.
pub fn sync_summary(enabled: usize, written: usize, removed: usize) -> (r: String)
    ensures
        r@ == "Synchronized "@ + decimal_spec(enabled as nat) + " enabled packages ("@
            + decimal_spec(written as nat) + " profiles written, "@ + decimal_spec(removed as nat)
            + " removed)."@,
{
    let e = decimal(enabled);
    let w = decimal(written);
    let d = decimal(removed);
    String::from_str("Synchronized ").concat(e.as_str()).concat(" enabled packages (").concat(
        w.as_str(),
    ).concat(" profiles written, ").concat(d.as_str()).concat(" removed).")
}

} // verus!
