//! Discovery: a bounded walk of a directory tree that keeps the repository
//! roots, and the file format that carries the paths found to `exec`.

use vstd::prelude::*;
use vstd::utf8::{decode_utf8, encode_utf8};

use crate::exec::exec::{PathsLocation, decoded, first_invalid, location, location_of};
use crate::exec::repo::opens_as_repository;
use crate::exec::repo_operations::strings_view;
use crate::exec::repositories::{accepted, keep_probed, kept, lemma_kept_only_probed};
use crate::text::{lemma_encoded_last_cr, lemma_line_end, lemma_no_ascii_byte, split_lines};
use crate::options::opts::ScanOpts;

verus! {

/// A directory entry met by the walk, with its depth below the walk's root;
/// its path is absent when it is not valid UTF-8.
#[derive(Debug, PartialEq, Eq)]
pub struct WalkEntry {
    pub path: Option<String>,
    pub depth: usize,
}

/// Why a scan failed.
#[derive(Debug, PartialEq, Eq)]
pub enum DiscoveryError {
    /// The walk could not read an entry; the message names it.
    Walk(String),
    /// This path could not be written relative to the base directory.
    NotRelative(String),
}

/// The bytes of `.git`, the name of git's metadata directory.
pub open spec fn dot_git() -> Seq<u8> {
    seq![46u8, 103u8, 105u8, 116u8]
}

/// The name `.git`.
pub open spec fn dot_git_name() -> Seq<char> {
    seq!['.', 'g', 'i', 't']
}

/// `p` followed by the component `c`, with a separator between them unless
/// `p` is empty or already ends with one.
pub open spec fn join_component(p: Seq<char>, c: Seq<char>) -> Seq<char> {
    if p.len() == 0 || p.last() == '/' {
        p + c
    } else {
        p + seq!['/'] + c
    }
}

/// `root` followed by the components `comps`, in order.
pub open spec fn joined(root: Seq<char>, comps: Seq<Seq<char>>) -> Seq<char>
    decreases comps.len(),
{
    if comps.len() == 0 {
        root
    } else {
        join_component(joined(root, comps.drop_last()), comps.last())
    }
}

/// A name that the walk goes through: not empty, no separator, not `.git`.
pub open spec fn walkable_name(c: Seq<char>) -> bool {
    &&& c.len() > 0
    &&& !c.contains('/')
    &&& c != dot_git_name()
}

/// An entry that the walk below `root` can yield: no deeper than
/// `max_depth`, and, when its path is valid UTF-8, `root` followed by as many
/// names as its depth, none of them `.git`.
pub open spec fn walked(e: WalkEntry, root: Seq<char>, max_depth: usize) -> bool {
    &&& e.depth <= max_depth
    &&& e.path matches Some(p) ==> exists|comps: Seq<Seq<char>>|
        {
            &&& comps.len() == e.depth
            &&& forall|k: int| 0 <= k < comps.len() ==> walkable_name(#[trigger] comps[k])
            &&& p@ == joined(root, comps)
        }
}

proof fn lemma_dot_git_bytes()
    ensures
        encode_utf8(dot_git_name()) == dot_git(),
{
    let s = dot_git_name();
    assert((46u32 & 0x7Fu32) == 46u32) by (bit_vector);
    assert((103u32 & 0x7Fu32) == 103u32) by (bit_vector);
    assert((105u32 & 0x7Fu32) == 105u32) by (bit_vector);
    assert((116u32 & 0x7Fu32) == 116u32) by (bit_vector);
    let s1 = s.drop_first();
    let s2 = s1.drop_first();
    let s3 = s2.drop_first();
    let s4 = s3.drop_first();
    assert(s4 =~= Seq::<char>::empty());
    assert(encode_utf8(s4) =~= Seq::<u8>::empty());
    assert(encode_utf8(s3) =~= seq![116u8]);
    assert(encode_utf8(s2) =~= seq![105u8, 116u8]);
    assert(encode_utf8(s1) =~= seq![103u8, 105u8, 116u8]);
    assert(encode_utf8(s) =~= dot_git());
}

/// Whether the walk goes into the entry at `depth` named `name` (absent when
/// the name is not valid UTF-8): below the root, it skips `.git`, which it
/// neither yields nor enters.
pub fn walk_enters(depth: usize, name: Option<&str>) -> (r: bool)
    ensures
        r == !(depth > 0 && (name matches Some(n) && n@ == dot_git_name())),
{
    if depth == 0 {
        return true;
    }
    match name {
        None => true,
        Some(n) => {
            let b = n.as_bytes();
            proof {
                broadcast use vstd::utf8::encode_utf8_decode_utf8;

                lemma_dot_git_bytes();
            }
            let is_git = b.len() == 4 && b[0] == 46u8 && b[1] == 103u8 && b[2] == 105u8 && b[3]
                == 116u8;
            proof {
                if is_git {
                    assert(b@ =~= dot_git());
                }
                assert(decode_utf8(encode_utf8(n@)) == n@);
                assert(decode_utf8(encode_utf8(dot_git_name())) == dot_git_name());
            }
            !is_git
        },
    }
}

/// Relies on walkdir's `WalkDir` with `max_depth` and `filter_entry`: the
/// entries below `root` up to `max_depth`, in walk order, each with its depth,
/// or the message of the first error met. An entry's path is the path of the
/// directory it was read from joined with its name (`Path::join`); entries
/// for which `walk_enters` is false are neither yielded nor entered.
#[verifier::external_body]
fn walk(root: &str, max_depth: usize) -> (r: Result<Vec<WalkEntry>, String>)
    ensures
        r matches Ok(v) ==> forall|i: int| 0 <= i < v@.len() ==> walked(#[trigger] v@[i], root@, max_depth),
{
    walkdir::WalkDir::new(root).max_depth(max_depth).into_iter()
        .filter_entry(|e| walk_enters(e.depth(), e.file_name().to_str()))
        .map(|e| match e {
            Ok(e) => Ok(WalkEntry { path: e.path().to_str().map(String::from), depth: e.depth() }),
            Err(err) => Err(err.to_string()),
        })
        .collect()
}

/// `path` relative to `base`, as `Path::strip_prefix` gives it.
pub uninterp spec fn relative_path(path: Seq<char>, base: Seq<char>) -> Option<Seq<char>>;

/// Relies on `Path::strip_prefix`: `path` without the leading components that
/// make up `base`, or nothing when `base` is not a prefix of it.
#[verifier::external_body]
fn strip_base(path: &str, base: &str) -> (r: Option<String>)
    ensures
        r is None <==> relative_path(path@, base@) is None,
        r matches Some(s) ==> relative_path(path@, base@) == Some(s@),
{
    std::path::Path::new(path).strip_prefix(base).ok().and_then(|p| p.to_str()).map(String::from)
}

/// The last component of the path `p` is `.git`.
pub open spec fn is_metadata_dir(p: Seq<u8>) -> bool {
    ||| p == dot_git()
    ||| (p.len() >= 5 && p.subrange(p.len() - 5, p.len() as int) == seq![47u8] + dot_git())
}

/// Whether the last component of `path` is `.git`.
fn in_metadata_dir(path: &str) -> (r: bool)
    ensures
        r == is_metadata_dir(encode_utf8(path@)),
{
    let b = path.as_bytes();
    let n: usize = b.len();
    let r = if n == 4 {
        b[0] == 46u8 && b[1] == 103u8 && b[2] == 105u8 && b[3] == 116u8
    } else if n >= 5 {
        b[n - 5] == 47u8 && b[n - 4] == 46u8 && b[n - 3] == 103u8 && b[n - 2] == 105u8 && b[n - 1]
            == 116u8
    } else {
        false
    };
    proof {
        let p = b@;
        if n == 4 {
            if r {
                assert(p =~= dot_git());
            }
        } else if n >= 5 {
            let tail = p.subrange(n - 5, n as int);
            if r {
                assert(tail =~= seq![47u8] + dot_git());
            } else {
                assert(tail[0] != 47u8 || tail[1] != 46u8 || tail[2] != 103u8 || tail[3] != 105u8
                    || tail[4] != 116u8);
                assert((seq![47u8] + dot_git())[4] == 116u8);
            }
        }
    }
    r
}

/// An entry's path as recorded: unchanged, or relative to `base`.
pub open spec fn rewritten(p: Seq<char>, base: Option<Seq<char>>) -> Option<Seq<char>> {
    match base {
        None => Some(p),
        Some(b) => relative_path(p, b),
    }
}

/// An entry that discovery probes: at least `min_depth` deep, with a UTF-8
/// path (the path file holds UTF-8 text only), and not itself a `.git`
/// directory.
pub open spec fn is_candidate(e: WalkEntry, min_depth: usize) -> bool {
    &&& e.depth >= min_depth
    &&& e.path matches Some(p) && !is_metadata_dir(encode_utf8(p@))
}

/// The paths to probe, in walk order: those of the candidate entries, each
/// rewritten relative to `base` when one is given; or the first path that
/// cannot be rewritten.
pub open spec fn candidates(entries: Seq<WalkEntry>, min_depth: usize, base: Option<Seq<char>>) -> Result<
    Seq<Seq<char>>,
    Seq<char>,
>
    decreases entries.len(),
{
    if entries.len() == 0 {
        Ok(seq![])
    } else if !is_candidate(entries[0], min_depth) {
        candidates(entries.drop_first(), min_depth, base)
    } else {
        let p = entries[0].path->Some_0@;
        match rewritten(p, base) {
            None => Err(p),
            Some(q) => match candidates(entries.drop_first(), min_depth, base) {
                Ok(c) => Ok(seq![q] + c),
                Err(e) => Err(e),
            },
        }
    }
}

pub open spec fn prefixed(done: Seq<Seq<char>>, rest: Result<Seq<Seq<char>>, Seq<char>>) -> Result<
    Seq<Seq<char>>,
    Seq<char>,
> {
    match rest {
        Ok(c) => Ok(done + c),
        Err(e) => Err(e),
    }
}

pub open spec fn base_view(base: Option<&str>) -> Option<Seq<char>> {
    match base {
        None => None,
        Some(b) => Some(b@),
    }
}

/// The paths to probe among `entries`, as `candidates` describes them.
pub fn select_candidates(entries: &Vec<WalkEntry>, min_depth: usize, relative_to: Option<&str>) -> (r:
    Result<Vec<String>, DiscoveryError>)
    ensures
        r matches Ok(c) ==> candidates(entries@, min_depth, base_view(relative_to)) == Ok::<
            Seq<Seq<char>>,
            Seq<char>,
        >(strings_view(c@)),
        r matches Err(e) ==> e matches DiscoveryError::NotRelative(p) && candidates(
            entries@,
            min_depth,
            base_view(relative_to),
        ) == Err::<Seq<Seq<char>>, Seq<char>>(p@),
        r is Ok <==> candidates(entries@, min_depth, base_view(relative_to)) is Ok,
{
    let ghost all = entries@;
    let ghost base = base_view(relative_to);
    let mut out: Vec<String> = Vec::new();
    let mut i: usize = 0;
    assert(all.skip(0) =~= all);
    assert(strings_view(out@) =~= seq![]);
    assert(prefixed(strings_view(out@), candidates(all, min_depth, base)) =~= candidates(
        all,
        min_depth,
        base,
    )) by {
        if let Ok(c) = candidates(all, min_depth, base) {
            assert(seq![] + c =~= c);
        }
    }
    while i < entries.len()
        invariant
            all == entries@,
            base == base_view(relative_to),
            i <= entries@.len(),
            prefixed(strings_view(out@), candidates(all.skip(i as int), min_depth, base))
                == candidates(all, min_depth, base),
        decreases entries@.len() - i,
    {
        let entry = &entries[i];
        assert(all.skip(i as int).drop_first() =~= all.skip(i + 1));
        assert(all.skip(i as int)[0] == *entry);
        if entry.depth >= min_depth {
            if let Some(path) = &entry.path {
                if !in_metadata_dir(path.as_str()) {
                    let q = match relative_to {
                        None => path.clone(),
                        Some(b) => match strip_base(path.as_str(), b) {
                            None => {
                                return Err(DiscoveryError::NotRelative(path.clone()));
                            },
                            Some(q) => q,
                        },
                    };
                    let ghost before = out@;
                    out.push(q);
                    assert(strings_view(out@) =~= strings_view(before) + seq![q@]);
                    assert forall|rest: Result<Seq<Seq<char>>, Seq<char>>|
                        true implies #[trigger] prefixed(strings_view(out@), rest) == prefixed(
                            strings_view(before),
                            match rest {
                                Ok(c) => Ok(seq![q@] + c),
                                Err(e) => Err(e),
                            },
                        ) by {
                        if let Ok(c) = rest {
                            assert(strings_view(out@) + c =~= strings_view(before) + (seq![q@]
                                + c));
                        }
                    }
                }
            }
        }
        i = i + 1;
    }
    assert(all.skip(entries@.len() as int) =~= seq![]);
    assert(strings_view(out@) + seq![] =~= strings_view(out@));
    Ok(out)
}

/// A walk below `root` that met `entries` (each within `max_depth`, and each
/// path `root` followed by as many names as its depth, none of them `.git`),
/// the candidates it leaves from `min_depth` on, and what discovery keeps of
/// them when the probes answer `probes`.
pub open spec fn discovered(
    entries: Seq<WalkEntry>,
    root: Seq<char>,
    min_depth: usize,
    max_depth: usize,
    base: Option<Seq<char>>,
    probes: Seq<bool>,
    found: Seq<Seq<char>>,
) -> bool {
    &&& forall|i: int| 0 <= i < entries.len() ==> walked(#[trigger] entries[i], root, max_depth)
    &&& candidates(entries, min_depth, base) matches Ok(c) && probes.len() == c.len() && found
        == kept(c, probes)
}

/// Some walk below `root`, with some answers of the probes, leads discovery
/// to `found`.
pub open spec fn discoverable(
    found: Seq<Seq<char>>,
    root: Seq<char>,
    min_depth: usize,
    max_depth: usize,
    base: Option<Seq<char>>,
) -> bool {
    exists|entries: Seq<WalkEntry>, probes: Seq<bool>|
        #[trigger] discovered(entries, root, min_depth, max_depth, base, probes, found)
}

/// The repositories below `root`: the walk visits the entries at depths from
/// `min_depth` to `max_depth` (none when `max_depth < min_depth`), never
/// enters nor reports git's metadata directories, rewrites each path relative
/// to `relative_to` when it is given, and keeps, in walk order, the paths that
/// open as repositories. Any walk error, or a path that cannot be made
/// relative, fails the whole scan.
pub fn get_repo_paths(root: &str, min_depth: usize, max_depth: usize, relative_to: Option<&str>) -> (r:
    Result<Vec<String>, DiscoveryError>)
    ensures
        max_depth < min_depth ==> (r matches Ok(found) && found@.len() == 0),
        r matches Ok(found) ==> discoverable(
            strings_view(found@),
            root@,
            min_depth,
            max_depth,
            base_view(relative_to),
        ),
        r matches Err(DiscoveryError::NotRelative(p)) ==> exists|entries: Seq<WalkEntry>|
            #[trigger] candidates(entries, min_depth, base_view(relative_to)) == Err::<
                Seq<Seq<char>>,
                Seq<char>,
            >(p@),
{
    if max_depth < min_depth {
        let found: Vec<String> = Vec::new();
        proof {
            let entries = Seq::<WalkEntry>::empty();
            let probes = Seq::<bool>::empty();
            assert(kept(seq![], probes) == Seq::<Seq<char>>::empty());
            assert(strings_view(found@) =~= seq![]);
            assert(discovered(
                entries,
                root@,
                min_depth,
                max_depth,
                base_view(relative_to),
                probes,
                strings_view(found@),
            ));
        }
        return Ok(found);
    }
    let entries = match walk(root, max_depth) {
        Ok(entries) => entries,
        Err(message) => {
            return Err(DiscoveryError::Walk(message));
        },
    };
    let paths = match select_candidates(&entries, min_depth, relative_to) {
        Ok(paths) => paths,
        Err(e) => {
            assert(candidates(entries@, min_depth, base_view(relative_to)) is Err);
            return Err(e);
        },
    };
    let mut probes: Vec<bool> = Vec::new();
    let mut i: usize = 0;
    while i < paths.len()
        invariant
            i <= paths@.len(),
            probes@.len() == i,
        decreases paths@.len() - i,
    {
        probes.push(opens_as_repository(paths[i].as_str()));
        i = i + 1;
    }
    let found = keep_probed(paths, &probes);
    assert(discovered(
        entries@,
        root@,
        min_depth,
        max_depth,
        base_view(relative_to),
        probes@,
        strings_view(found@),
    ));
    Ok(found)
}

/// `p` is `root` followed by between `min_depth` and `max_depth` names, none
/// of them `.git`.
pub open spec fn within_depths(p: Seq<char>, root: Seq<char>, min_depth: usize, max_depth: usize) -> bool {
    exists|comps: Seq<Seq<char>>|
        {
            &&& min_depth <= comps.len() <= max_depth
            &&& forall|k: int| 0 <= k < comps.len() ==> walkable_name(#[trigger] comps[k])
            &&& p == joined(root, comps)
        }
}

proof fn lemma_candidates_within_depths(
    entries: Seq<WalkEntry>,
    root: Seq<char>,
    min_depth: usize,
    max_depth: usize,
)
    requires
        forall|i: int| 0 <= i < entries.len() ==> walked(#[trigger] entries[i], root, max_depth),
    ensures
        candidates(entries, min_depth, None) matches Ok(c) ==> forall|j: int|
            0 <= j < c.len() ==> within_depths(#[trigger] c[j], root, min_depth, max_depth),
    decreases entries.len(),
{
    if entries.len() > 0 {
        let rest = entries.drop_first();
        assert forall|i: int| 0 <= i < rest.len() implies walked(#[trigger] rest[i], root, max_depth) by {
            assert(rest[i] == entries[i + 1]);
        }
        lemma_candidates_within_depths(rest, root, min_depth, max_depth);
        if is_candidate(entries[0], min_depth) {
            assert(walked(entries[0], root, max_depth));
            if let Ok(c) = candidates(entries, min_depth, None) {
                let c2 = candidates(rest, min_depth, None)->Ok_0;
                assert forall|j: int| 0 <= j < c.len() implies within_depths(
                    #[trigger] c[j],
                    root,
                    min_depth,
                    max_depth,
                ) by {
                    if j > 0 {
                        assert(c[j] == c2[j - 1]);
                    }
                }
            }
        }
    }
}

/// Depth bound: when paths are not rewritten, every path that discovery
/// keeps is `root` followed by between `min_depth` and `max_depth` names,
/// none of them `.git`.
pub proof fn lemma_found_within_depths(
    entries: Seq<WalkEntry>,
    root: Seq<char>,
    min_depth: usize,
    max_depth: usize,
    probes: Seq<bool>,
    found: Seq<Seq<char>>,
)
    requires
        discovered(entries, root, min_depth, max_depth, None, probes, found),
    ensures
        forall|j: int|
            0 <= j < found.len() ==> within_depths(#[trigger] found[j], root, min_depth, max_depth),
{
    lemma_candidates_within_depths(entries, root, min_depth, max_depth);
    let c = candidates(entries, min_depth, None)->Ok_0;
    lemma_kept_only_probed(c, probes);
    assert forall|j: int| 0 <= j < found.len() implies within_depths(
        #[trigger] found[j],
        root,
        min_depth,
        max_depth,
    ) by {
        assert(accepted(c, probes, found[j]));
        let i = choose|i: int| 0 <= i < c.len() && probes[i] && c[i] == found[j];
        assert(within_depths(c[i], root, min_depth, max_depth));
    }
}

/// The text of the file that lists `paths`: each path, encoded as UTF-8,
/// followed by a newline.
pub open spec fn persisted(paths: Seq<Seq<char>>) -> Seq<u8>
    decreases paths.len(),
{
    if paths.len() == 0 {
        seq![]
    } else {
        encode_utf8(paths[0]) + seq![10u8] + persisted(paths.drop_first())
    }
}

/// The text of the file that lists `paths`, one per line.
pub fn paths_file_contents(paths: &Vec<String>) -> (r: Vec<u8>)
    ensures
        r@ == persisted(strings_view(paths@)),
{
    let ghost all = strings_view(paths@);
    let mut out: Vec<u8> = Vec::new();
    let mut i: usize = 0;
    assert(all.skip(0) =~= all);
    assert(out@ + persisted(all) =~= persisted(all));
    while i < paths.len()
        invariant
            all == strings_view(paths@),
            i <= paths@.len(),
            out@ + persisted(all.skip(i as int)) == persisted(all),
        decreases paths@.len() - i,
    {
        assert(all.skip(i as int).drop_first() =~= all.skip(i + 1));
        let b = paths[i].as_str().as_bytes();
        let ghost before = out@;
        let mut j: usize = 0;
        while j < b.len()
            invariant
                j <= b@.len(),
                out@ == before + b@.subrange(0, j as int),
            decreases b@.len() - j,
        {
            out.push(b[j]);
            assert(b@.subrange(0, j + 1) =~= b@.subrange(0, j as int).push(b@[j as int]));
            j = j + 1;
        }
        out.push(10u8);
        assert(b@.subrange(0, b@.len() as int) =~= b@);
        assert(out@ + persisted(all.skip(i + 1)) =~= before + persisted(all.skip(i as int)));
        i = i + 1;
    }
    assert(all.skip(paths@.len() as int) =~= Seq::<Seq<char>>::empty());
    assert(out@ + persisted(Seq::<Seq<char>>::empty()) =~= out@);
    out
}

/// A path that a line of the file carries unchanged: no newline in it, and
/// no carriage return at its end.
pub open spec fn fits_on_line(p: Seq<char>) -> bool {
    &&& forall|i: int| 0 <= i < p.len() ==> #[trigger] p[i] != '\n'
    &&& !(p.len() > 0 && p.last() == '\r')
}

proof fn lemma_lines_of_persisted(paths: Seq<Seq<char>>)
    requires
        forall|i: int| 0 <= i < paths.len() ==> fits_on_line(#[trigger] paths[i]),
    ensures
        split_lines(persisted(paths)) == paths.map_values(|p: Seq<char>| encode_utf8(p)),
    decreases paths.len(),
{
    let encoded = paths.map_values(|p: Seq<char>| encode_utf8(p));
    if paths.len() == 0 {
        assert(encoded =~= Seq::<Seq<u8>>::empty());
    } else {
        let p = paths[0];
        let e = encode_utf8(p);
        let rest = paths.drop_first();
        let t = persisted(paths);
        assert(fits_on_line(p));
        assert forall|i: int| 0 <= i < p.len() implies #[trigger] p[i] as u32 != 10u32 by {
            assert(p[i] != '\n');
            if p[i] as u32 == 10u32 {
                vstd::utf8::char_u32_cast(p[i], 10u32);
                vstd::utf8::char_u32_cast('\n', 10u32);
            }
        }
        lemma_no_ascii_byte(p, 10u32);
        assert forall|j: int| 0 <= j < e.len() implies t[j] != 10u8 by {
            assert(t[j] == e[j]);
            assert(e[j] as u32 != 10u32);
        }
        lemma_line_end(t, e.len() as int);
        assert(t.subrange(0, e.len() as int) =~= e);
        assert(t.subrange(e.len() as int + 1, t.len() as int) =~= persisted(rest));
        lemma_encoded_last_cr(p);
        lemma_lines_of_persisted(rest);
        assert(encoded =~= seq![e] + rest.map_values(|p: Seq<char>| encode_utf8(p)));
    }
}

/// Persist round-trip: the file written for `paths` reads back as `paths`,
/// line for line, with no line that fails to decode, so loading it keeps
/// exactly those of `paths` whose probe succeeds, in their order. A path
/// holding a newline, or ending with a carriage return, would not survive
/// its line.
pub proof fn lemma_persist_round_trip(paths: Seq<Seq<char>>, probes: Seq<bool>)
    requires
        forall|i: int| 0 <= i < paths.len() ==> fits_on_line(#[trigger] paths[i]),
        probes.len() == paths.len(),
    ensures
        split_lines(persisted(paths)).len() == paths.len(),
        forall|k: int| !first_invalid(split_lines(persisted(paths)), k),
        decoded(split_lines(persisted(paths))) == paths,
        kept(decoded(split_lines(persisted(paths))), probes) == kept(paths, probes),
{
    broadcast use vstd::utf8::encode_utf8_valid_utf8, vstd::utf8::encode_utf8_decode_utf8;

    lemma_lines_of_persisted(paths);
    let ls = split_lines(persisted(paths));
    assert(decoded(ls) =~= paths);
    assert forall|k: int| !first_invalid(ls, k) by {
        if 0 <= k < ls.len() {
            assert(ls[k] == encode_utf8(paths[k]));
        }
    }
}

/// Where `scan` writes the paths it found.
pub fn destination(opts: &ScanOpts) -> (r: PathsLocation)
    ensures
        r@ == location_of(opts.save_to_file),
{
    location(&opts.save_to_file)
}

} // verus!
