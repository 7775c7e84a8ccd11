//! The names that received files are stored under: the partial file that a
//! download is written to, and the numbered names, `file(1).txt`, that keep
//! a new file from replacing an existing one.
use vstd::prelude::*;

use crate::text::{decimal, spec_decimal};

verus! {

/// The position of the last `.` among the first `k` characters of `s`.
pub open spec fn last_dot_before(s: Seq<char>, k: int) -> Option<int>
    decreases k,
{
    if k <= 0 {
        None
    } else if s[k - 1] == '.' {
        Some(k - 1)
    } else {
        last_dot_before(s, k - 1)
    }
}

/// A dot found among the first `k` characters stands among them, and is a dot.
proof fn lemma_last_dot_range(s: Seq<char>, k: int)
    requires
        k <= s.len(),
    ensures
        last_dot_before(s, k) matches Some(i) ==> 0 <= i < k && s[i] == '.',
    decreases k,
{
    if k > 0 && s[k - 1] != '.' {
        lemma_last_dot_range(s, k - 1);
    }
}

/// A file name split into its stem and its extension, as a path's
/// `file_stem` and `extension` split its last component: at the last `.`,
/// unless that dot opens the name or the name is `..`, in which case the
/// whole name is the stem and there is no extension. The extension may be
/// empty (`"a."`).
pub open spec fn spec_split_name(name: Seq<char>) -> (Seq<char>, Option<Seq<char>>) {
    if name == seq!['.', '.'] {
        (name, None)
    } else {
        match last_dot_before(name, name.len() as int) {
            Some(i) => if i == 0 {
                (name, None)
            } else {
                (name.take(i), Some(name.skip(i + 1)))
            },
            None => (name, None),
        }
    }
}

/// The `n`-th alternative to a name: the stem followed by `(n)`, then, for
/// a file with an extension, the dot and the extension. A directory, or a
/// name without an extension, gets no extension back.
pub open spec fn spec_numbered_name(name: Seq<char>, n: nat, is_dir: bool) -> Seq<char> {
    let (stem, ext) = spec_split_name(name);
    let base = stem + seq!['('] + spec_decimal(n) + seq![')'];
    match ext {
        Some(e) => if is_dir {
            base
        } else {
            base + seq!['.'] + e
        },
        None => base,
    }
}

/// Where the last `.` of a name stands, if it has one.
fn find_last_dot(name: &str) -> (res: Option<usize>)
    ensures
        match res {
            Some(i) => last_dot_before(name@, name@.len() as int) == Some(i as int),
            None => last_dot_before(name@, name@.len() as int) is None,
        },
{
    let len = name.unicode_len();
    let mut k: usize = len;
    while k > 0
        invariant
            k <= len,
            len == name@.len(),
            last_dot_before(name@, len as int) == last_dot_before(name@, k as int),
        decreases k,
    {
        if name.get_char(k - 1) == '.' {
            return Some(k - 1);
        }
        k = k - 1;
    }
    None
}

/// The `n`-th alternative to the name of an existing file or directory:
/// `report.pdf` becomes `report(1).pdf`, a directory `photos` becomes
/// `photos(1)`.
pub fn numbered_name(name: &str, n: u32, is_dir: bool) -> (res: String)
    ensures
        res@ == spec_numbered_name(name@, n as nat, is_dir),
{
    let len = name.unicode_len();
    let is_dotdot = len == 2 && name.get_char(0) == '.' && name.get_char(1) == '.';
    proof {
        if is_dotdot {
            assert(name@ =~= seq!['.', '.']);
        }
        if name@ == seq!['.', '.'] {
            assert(name@[0] == '.' && name@[1] == '.');
        }
    }
    proof {
        lemma_last_dot_range(name@, len as int);
    }
    let split: Option<usize> = if is_dotdot {
        None
    } else {
        match find_last_dot(name) {
            Some(i) => if i == 0 {
                None
            } else {
                Some(i)
            },
            None => None,
        }
    };
    let stem: &str = match split {
        Some(i) => name.substring_char(0, i),
        None => name,
    };
    let mut res = String::from_str(stem);
    res.append("(");
    let digits = decimal(n);
    res.append(digits.as_str());
    res.append(")");
    proof {
        reveal_strlit("(");
        reveal_strlit(")");
        reveal_strlit(".");
    }
    match split {
        Some(i) => {
            if !is_dir {
                res.append(".");
                let ext = name.substring_char(i + 1, len);
                res.append(ext);
            }
        },
        None => {},
    }
    proof {
        let (s, e) = spec_split_name(name@);
        assert(stem@ == s);
        match split {
            Some(i) => {
                assert(name@.subrange(0, i as int) =~= name@.take(i as int));
                assert(name@.subrange(i + 1, len as int) =~= name@.skip(i + 1));
            },
            None => {},
        }
        assert(res@ =~= spec_numbered_name(name@, n as nat, is_dir));
    }
    res
}

/// The decimal text of a number is never empty.
proof fn lemma_decimal_nonempty(n: nat)
    ensures
        spec_decimal(n).len() >= 1,
    decreases n,
{
    if n >= 10 {
        lemma_decimal_nonempty(n / 10);
    }
}

/// A numbered name is never the name it stands in for; for a file it is
/// longer than the name.
pub proof fn law_numbered_name_differs(name: Seq<char>, n: nat, is_dir: bool)
    ensures
        spec_numbered_name(name, n, is_dir) != name,
        !is_dir ==> spec_numbered_name(name, n, is_dir).len() > name.len(),
{
    lemma_decimal_nonempty(n);
    let r = spec_numbered_name(name, n, is_dir);
    if name != seq!['.', '.'] {
        lemma_last_dot_range(name, name.len() as int);
        match last_dot_before(name, name.len() as int) {
            Some(i) => {
                if i > 0 && is_dir && r.len() == name.len() {
                    assert(r[i] == '(');
                    assert(name[i] == '.');
                }
            },
            None => {},
        }
    }
}

/// A path with each `\\` replaced by `/`.
pub open spec fn spec_slashed(p: Seq<char>) -> Seq<char> {
    p.map_values(|c: char| if c == '\\' { '/' } else { c })
}

/// The path of a file in a folder manifest: its path relative to the
/// folder, with `/` as the separator whatever the sending platform uses.
pub fn manifest_path(relative: &str) -> (res: String)
    ensures
        res@ == spec_slashed(relative@),
{
    let len = relative.unicode_len();
    let mut res = String::new();
    let mut i: usize = 0;
    while i < len
        invariant
            0 <= i <= len,
            len == relative@.len(),
            res@ == spec_slashed(relative@.take(i as int)),
        decreases len - i,
    {
        let c = relative.get_char(i);
        let ghost before = res@;
        let ghost d: char = if c == '\\' { '/' } else { c };
        if c == '\\' {
            res.append("/");
            proof {
                reveal_strlit("/");
                assert("/"@ =~= seq!['/']);
            }
        } else {
            let one = relative.substring_char(i, i + 1);
            proof {
                assert(one@ =~= seq![c]);
            }
            res.append(one);
        }
        proof {
            assert(res@ =~= before + seq![d]);
            assert(relative@.take(i + 1) =~= relative@.take(i as int).push(c));
            assert(spec_slashed(relative@.take(i + 1)) =~= spec_slashed(relative@.take(i as int)) + seq![d]);
        }
        i = i + 1;
    }
    proof {
        assert(relative@.take(len as int) =~= relative@);
    }
    res
}

/// The name a download is written under until it is complete: the file's
/// name followed by `.part`.
pub fn part_name(file_name: &str) -> (res: String)
    ensures
        res@ == file_name@ + ".part"@,
{
    let mut res = String::from_str(file_name);
    res.append(".part");
    res
}

} // verus!
