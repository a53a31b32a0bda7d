//! Output namer: computes a deterministic output path for each input, either
//! from a base name and the job's sequence index, or from the stem of the
//! input file name. No filesystem probing: collision avoidance is structural,
//! proved in the lemmas at the end of this module.

use vstd::prelude::*;

use crate::digits::{is_digit, lemma_decimal_digits, lemma_decimal_injective, spec_decimal,
    u32_to_decimal};

verus! {

use vstd::string::StrSliceExecFns;
use vstd::string::StringExecFns;

/// Whether a character separates path components.
pub open spec fn is_separator(c: char) -> bool {
    c == '/' || c == '\\'
}

/// The index where the file name of a path begins: just after the last
/// separator, or zero when the path has none.
pub open spec fn spec_name_start(s: Seq<char>) -> int
    decreases s.len(),
{
    if s.len() == 0 {
        0
    } else if is_separator(s.last()) {
        s.len() as int
    } else {
        spec_name_start(s.drop_last())
    }
}

/// The index of the last `.` in a file name, leading dots not counted, or
/// `None` when the name has no such dot.
pub open spec fn spec_last_dot(name: Seq<char>) -> Option<int>
    decreases name.len(),
{
    if name.len() <= 1 {
        None
    } else if name.last() == '.' {
        Some(name.len() - 1)
    } else {
        spec_last_dot(name.drop_last())
    }
}

/// The length of the stem of a file name: everything before the last dot,
/// or the whole name when it has no dot past its first character.
pub open spec fn spec_stem_len(name: Seq<char>) -> int {
    match spec_last_dot(name) {
        Some(i) => i,
        None => name.len() as int,
    }
}

/// The file name of a path: what follows the last separator.
pub open spec fn spec_file_name(s: Seq<char>) -> Seq<char> {
    s.subrange(spec_name_start(s), s.len() as int)
}

/// The stem of a path's file name.
pub open spec fn spec_file_stem(s: Seq<char>) -> Seq<char> {
    spec_file_name(s).subrange(0, spec_stem_len(spec_file_name(s)))
}

/// The stem of a path's file name, as the vector pipeline names its outputs.
pub fn file_stem(path: &str) -> (r: String)
    ensures
        r@ == spec_file_stem(path@),
{
    let n = path.unicode_len();
    let ghost s = path@;

    // Scan backwards for the last separator.
    proof {
        assert(s.subrange(0, n as int) =~= s);
    }
    let mut start: usize = n;
    loop
        invariant_except_break
            start <= n,
            n == s.len(),
            s == path@,
            spec_name_start(s) == spec_name_start(s.subrange(0, start as int)),
        ensures
            start <= n,
            n == s.len(),
            s == path@,
            spec_name_start(s) == start as int,
        decreases start,
    {
        if start == 0 {
            proof {
                assert(s.subrange(0, 0) =~= Seq::<char>::empty());
            }
            break;
        }
        let c = path.get_char(start - 1);
        proof {
            let sub = s.subrange(0, start as int);
            assert(sub.len() == start);
            assert(sub.last() == s[start as int - 1]);
        }
        if c == '/' || c == '\\' {
            break;
        }
        proof {
            let sub = s.subrange(0, start as int);
            assert(!is_separator(sub.last()));
            assert(sub.drop_last() =~= s.subrange(0, start as int - 1));
        }
        start -= 1;
    }

    let ghost name = s.subrange(start as int, n as int);

    // Scan backwards for the last dot of the file name, leading dot excluded.
    proof {
        assert(name.subrange(0, n - start) =~= name);
    }
    let mut end: usize = n;
    let mut e: usize = n;
    loop
        invariant_except_break
            start <= e <= n,
            n == s.len(),
            s == path@,
            end == n,
            name == s.subrange(start as int, n as int),
            spec_last_dot(name) == spec_last_dot(name.subrange(0, e - start)),
        ensures
            start <= end <= n,
            s == path@,
            n == s.len(),
            name == s.subrange(start as int, n as int),
            end - start == spec_stem_len(name),
        decreases e,
    {
        if e - start <= 1 {
            proof {
                let sub = name.subrange(0, e - start);
                assert(sub.len() <= 1);
                assert(spec_last_dot(sub) is None);
                assert(name.len() == n - start);
            }
            break;
        }
        let c = path.get_char(e - 1);
        proof {
            let sub = name.subrange(0, e - start);
            assert(sub.len() == e - start);
            assert(sub.len() >= 2);
            assert(sub.last() == name[e - start - 1]);
            assert(name[e - start - 1] == s[e as int - 1]);
        }
        if c == '.' {
            end = e - 1;
            proof {
                let sub = name.subrange(0, e - start);
                assert(spec_last_dot(sub) == Some(e - start - 1));
            }
            break;
        }
        proof {
            let sub = name.subrange(0, e - start);
            assert(!(sub.last() == '.'));
            assert(sub.drop_last() =~= name.subrange(0, e - 1 - start));
        }
        e -= 1;
    }

    let stem = path.substring_char(start, end);
    proof {
        assert(stem@ == s.subrange(start as int, end as int));
        assert(spec_file_name(s) == name);
        assert(spec_file_stem(s) == name.subrange(0, end - start));
        assert(name.subrange(0, end - start) =~= s.subrange(start as int, end as int));
    }
    String::from_str(stem)
}

/// The output path of the sequence-indexed naming scheme:
/// `{output_dir}/{base_name}{sequence_index}.{extension}`.
pub open spec fn spec_sequence_name(
    dir: Seq<char>,
    base: Seq<char>,
    sequence_index: nat,
    ext: Seq<char>,
) -> Seq<char> {
    dir + "/"@ + base + spec_decimal(sequence_index) + "."@ + ext
}

/// The output path of the stem-preserving naming scheme:
/// `{output_dir}/{stem(input_path)}.{extension}`.
pub open spec fn spec_stem_name(dir: Seq<char>, input: Seq<char>, ext: Seq<char>) -> Seq<char> {
    dir + "/"@ + spec_file_stem(input) + "."@ + ext
}

/// Compute the sequence-indexed output path. Pure: no filesystem access, no
/// existence probing.
pub fn name_for(output_dir: &str, base_name: &str, sequence_index: u32, extension: &str) -> (r:
    String)
    ensures
        r@ == spec_sequence_name(output_dir@, base_name@, sequence_index as nat, extension@),
{
    let mut out = String::new();
    out.append(output_dir);
    out.append("/");
    out.append(base_name);
    let digits = u32_to_decimal(sequence_index);
    out.append(digits.as_str());
    out.append(".");
    out.append(extension);
    proof {
        assert(out@ =~= spec_sequence_name(
            output_dir@,
            base_name@,
            sequence_index as nat,
            extension@,
        ));
    }
    out
}

/// Compute the stem-preserving output path. Pure: no filesystem access, no
/// existence probing.
pub fn name_for_stem(output_dir: &str, input_path: &str, extension: &str) -> (r: String)
    ensures
        r@ == spec_stem_name(output_dir@, input_path@, extension@),
{
    let mut out = String::new();
    out.append(output_dir);
    out.append("/");
    let stem = file_stem(input_path);
    out.append(stem.as_str());
    out.append(".");
    out.append(extension);
    proof {
        assert(out@ =~= spec_stem_name(output_dir@, input_path@, extension@));
    }
    out
}

/// Whether the file stems of the given paths are pairwise distinct. Under
/// the stem-preserving naming scheme this is what makes output paths
/// collision-free, so the planner refuses a batch without it.
pub open spec fn spec_stems_distinct(paths: Seq<Seq<char>>) -> bool {
    forall|k1: int, k2: int|
        0 <= k1 < k2 < paths.len() ==> spec_file_stem(#[trigger] paths[k1]) != spec_file_stem(
            #[trigger] paths[k2],
        )
}

/// Decide whether the inputs' file stems are pairwise distinct.
pub fn stems_distinct(paths: &Vec<String>) -> (r: bool)
    ensures
        r == spec_stems_distinct(paths.deep_view()),
{
    let n = paths.len();
    proof {
        assert(paths.deep_view().len() == paths@.len());
    }
    let mut k2: usize = 0;
    while k2 < n
        invariant
            n == paths@.len(),
            n == paths.deep_view().len(),
            k2 <= n,
            forall|a: int, b: int|
                0 <= a < b < k2 ==> spec_file_stem(#[trigger] paths.deep_view()[a])
                    != spec_file_stem(#[trigger] paths.deep_view()[b]),
        decreases n - k2,
    {
        let outer = &paths[k2];
        proof {
            assert(paths.deep_view()[k2 as int] == paths@[k2 as int]@);
        }
        let s2 = file_stem(outer.as_str());
        let mut k1: usize = 0;
        while k1 < k2
            invariant
                n == paths@.len(),
                n == paths.deep_view().len(),
                k1 <= k2 < n,
                s2@ == spec_file_stem(paths.deep_view()[k2 as int]),
                forall|a: int, b: int|
                    0 <= a < b < k2 ==> spec_file_stem(#[trigger] paths.deep_view()[a])
                        != spec_file_stem(#[trigger] paths.deep_view()[b]),
                forall|a: int|
                    0 <= a < k1 ==> spec_file_stem(#[trigger] paths.deep_view()[a])
                        != spec_file_stem(paths.deep_view()[k2 as int]),
            decreases k2 - k1,
        {
            let inner = &paths[k1];
            proof {
                assert(paths.deep_view()[k1 as int] == paths@[k1 as int]@);
            }
            let s1 = file_stem(inner.as_str());
            if s1.eq(&s2) {
                proof {
                    assert(spec_file_stem(paths.deep_view()[k1 as int]) == spec_file_stem(
                        paths.deep_view()[k2 as int],
                    ));
                    assert(!spec_stems_distinct(paths.deep_view()));
                }
                return false;
            }
            k1 += 1;
        }
        k2 += 1;
    }
    true
}

/// Equal-length prefixes of equal concatenations cancel.
proof fn lemma_concat_cancel(a: Seq<char>, x: Seq<char>, b: Seq<char>, y: Seq<char>)
    requires
        a.len() == b.len(),
        a + x == b + y,
    ensures
        x == y,
{
    assert((a + x).len() == a.len() + x.len());
    assert((b + y).len() == b.len() + y.len());
    assert(x.len() == y.len());
    assert forall|k: int| 0 <= k < x.len() implies x[k] == y[k] by {
        assert((a + x)[a.len() + k] == x[k]);
        assert((b + y)[b.len() + k] == y[k]);
    }
    assert(x =~= y);
}

/// Collision freedom of the sequence-indexed scheme: in one batch (fixed
/// output directory, base name and extension), two distinct sequence indices
/// always yield distinct output paths.
pub proof fn lemma_sequence_names_distinct(
    dir: Seq<char>,
    base: Seq<char>,
    i: nat,
    j: nat,
    ext: Seq<char>,
)
    requires
        i != j,
    ensures
        spec_sequence_name(dir, base, i, ext) != spec_sequence_name(dir, base, j, ext),
{
    if spec_sequence_name(dir, base, i, ext) == spec_sequence_name(dir, base, j, ext) {
        let p = dir + "/"@ + base;
        let si = spec_decimal(i);
        let sj = spec_decimal(j);
        assert(spec_sequence_name(dir, base, i, ext) =~= p + (si + "."@ + ext));
        assert(spec_sequence_name(dir, base, j, ext) =~= p + (sj + "."@ + ext));
        lemma_concat_cancel(p, si + "."@ + ext, p, sj + "."@ + ext);
        lemma_decimal_digits(i);
        lemma_decimal_digits(j);
        reveal_strlit(".");
        if si.len() == sj.len() {
            assert forall|k: int| 0 <= k < si.len() implies si[k] == sj[k] by {
                assert((si + "."@ + ext)[k] == si[k]);
                assert((sj + "."@ + ext)[k] == sj[k]);
            }
            assert(si =~= sj);
            lemma_decimal_injective(i, j);
        } else if si.len() < sj.len() {
            let k = si.len() as int;
            assert((si + "."@ + ext)[k] == '.');
            assert((sj + "."@ + ext)[k] == sj[k]);
            assert(is_digit(sj[k]));
        } else {
            let k = sj.len() as int;
            assert((sj + "."@ + ext)[k] == '.');
            assert((si + "."@ + ext)[k] == si[k]);
            assert(is_digit(si[k]));
        }
    }
}

/// Collision freedom of the stem-preserving scheme: in one batch, two inputs
/// whose file stems differ always yield distinct output paths. (Two inputs
/// that share a stem, such as the same file name under two directories,
/// would collide under this scheme, so planning a batch under it requires
/// `spec_stems_distinct`, and `prepare_batch` refuses a batch without it.)
pub proof fn lemma_stem_names_distinct(
    dir: Seq<char>,
    input1: Seq<char>,
    input2: Seq<char>,
    ext: Seq<char>,
)
    requires
        spec_file_stem(input1) != spec_file_stem(input2),
    ensures
        spec_stem_name(dir, input1, ext) != spec_stem_name(dir, input2, ext),
{
    if spec_stem_name(dir, input1, ext) == spec_stem_name(dir, input2, ext) {
        let p = dir + "/"@;
        let s1 = spec_file_stem(input1);
        let s2 = spec_file_stem(input2);
        assert(spec_stem_name(dir, input1, ext) =~= p + (s1 + "."@ + ext));
        assert(spec_stem_name(dir, input2, ext) =~= p + (s2 + "."@ + ext));
        lemma_concat_cancel(p, s1 + "."@ + ext, p, s2 + "."@ + ext);
        assert((s1 + "."@ + ext).len() == (s2 + "."@ + ext).len());
        assert(s1.len() == s2.len());
        assert forall|k: int| 0 <= k < s1.len() implies s1[k] == s2[k] by {
            assert((s1 + "."@ + ext)[k] == s1[k]);
            assert((s2 + "."@ + ext)[k] == s2[k]);
        }
        assert(s1 =~= s2);
    }
}

} // verus!
