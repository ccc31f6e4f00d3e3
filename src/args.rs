use vstd::prelude::*;
use crate::options::Options;

verus! {

/// One of the four recognised flags: `-c`, `-l`, `-w` or `-m`.
pub open spec fn is_flag(t: Seq<char>) -> bool {
    t == seq!['-', 'c'] || t == seq!['-', 'l'] || t == seq!['-', 'w'] || t == seq!['-', 'm']
}

/// A token that does not start with `-` names the input file.
pub open spec fn is_positional(t: Seq<char>) -> bool {
    !(t.len() > 0 && t[0] == '-')
}

/// A token that starts with `-` but is no recognised flag.
pub open spec fn is_unknown(t: Seq<char>) -> bool {
    !is_positional(t) && !is_flag(t)
}

/// Whether some token of `args` equals `t`.
pub open spec fn mentions(args: Seq<String>, t: Seq<char>) -> bool {
    exists|i: int| 0 <= i < args.len() && #[trigger] args[i]@ == t
}

/// Whether `x` is the last positional token of `args`.
pub open spec fn is_last_positional(args: Seq<String>, x: Seq<char>) -> bool {
    exists|j: int|
        0 <= j < args.len() && is_positional(#[trigger] args[j]@) && x == args[j]@ && forall|k: int|
            j < k < args.len() ==> !is_positional(#[trigger] args[k]@)
}

/// The flag a token sets: 0 for none (a positional or unknown token),
/// else 1 to 4 for `-c`, `-l`, `-w`, `-m`.
fn flag_code(t: &str) -> (r: u8)
    ensures
        r == 1 <==> t@ == seq!['-', 'c'],
        r == 2 <==> t@ == seq!['-', 'l'],
        r == 3 <==> t@ == seq!['-', 'w'],
        r == 4 <==> t@ == seq!['-', 'm'],
        r <= 4,
{
    if t.unicode_len() != 2 || t.get_char(0) != '-' {
        return 0;
    }
    let c = t.get_char(1);
    assert(t@ =~= seq!['-', c]);
    if c == 'c' {
        1
    } else if c == 'l' {
        2
    } else if c == 'w' {
        3
    } else if c == 'm' {
        4
    } else {
        0
    }
}

/// Whether the token starts with `-`.
fn starts_with_dash(t: &str) -> (r: bool)
    ensures
        r == !is_positional(t@),
{
    t.unicode_len() > 0 && t.get_char(0) == '-'
}

/// Scans the arguments left to right. Each flag sets its option; the last
/// positional token is the file name; the first token that starts with `-`
/// and is no flag stops the scan and is returned as the error.
pub fn parse_args(args: &Vec<String>) -> (r: Result<(Options, Option<String>), String>)
    ensures
        match r {
            Err(t) => exists|k: int|
                0 <= k < args@.len() && is_unknown(#[trigger] args@[k]@) && t@ == args@[k]@
                    && forall|i: int| 0 <= i < k ==> !is_unknown(#[trigger] args@[i]@),
            Ok((o, f)) => {
                &&& forall|i: int| 0 <= i < args@.len() ==> !is_unknown(#[trigger] args@[i]@)
                &&& o.count_bytes == mentions(args@, seq!['-', 'c'])
                &&& o.count_lines == mentions(args@, seq!['-', 'l'])
                &&& o.count_words == mentions(args@, seq!['-', 'w'])
                &&& o.count_chars == mentions(args@, seq!['-', 'm'])
                &&& (f is None <==> forall|i: int|
                    0 <= i < args@.len() ==> !is_positional(#[trigger] args@[i]@))
                &&& (f matches Some(x) ==> is_last_positional(args@, x@))
            },
        },
{
    let mut options = Options {
        count_bytes: false,
        count_lines: false,
        count_words: false,
        count_chars: false,
    };
    let mut filename: Option<String> = None;
    let mut i: usize = 0;
    while i < args.len()
        invariant
            i <= args@.len(),
            forall|j: int| 0 <= j < i ==> !is_unknown(#[trigger] args@[j]@),
            options.count_bytes == mentions(args@.subrange(0, i as int), seq!['-', 'c']),
            options.count_lines == mentions(args@.subrange(0, i as int), seq!['-', 'l']),
            options.count_words == mentions(args@.subrange(0, i as int), seq!['-', 'w']),
            options.count_chars == mentions(args@.subrange(0, i as int), seq!['-', 'm']),
            filename is None <==> forall|j: int| 0 <= j < i ==> !is_positional(#[trigger] args@[j]@),
            filename matches Some(x) ==> is_last_positional(args@.subrange(0, i as int), x@),
        decreases args@.len() - i,
    {
        let ghost pre = args@.subrange(0, i as int);
        let ghost cur = args@.subrange(0, i + 1);
        assert(forall|j: int| 0 <= j < i ==> #[trigger] cur[j] == pre[j]);
        assert(cur[i as int] == args@[i as int]);
        let arg = &args[i];
        let code = flag_code(arg.as_str());
        if code == 0 {
            if starts_with_dash(arg.as_str()) {
                return Err(arg.clone());
            }
            filename = Some(arg.clone());
        } else if code == 1 {
            options.count_bytes = true;
        } else if code == 2 {
            options.count_lines = true;
        } else if code == 3 {
            options.count_words = true;
        } else {
            options.count_chars = true;
        }
        proof {
            assert(mentions(cur, seq!['-', 'c']) == (mentions(pre, seq!['-', 'c']) || args@[i as int]@
                == seq!['-', 'c']));
            assert(mentions(cur, seq!['-', 'l']) == (mentions(pre, seq!['-', 'l']) || args@[i as int]@
                == seq!['-', 'l']));
            assert(mentions(cur, seq!['-', 'w']) == (mentions(pre, seq!['-', 'w']) || args@[i as int]@
                == seq!['-', 'w']));
            assert(mentions(cur, seq!['-', 'm']) == (mentions(pre, seq!['-', 'm']) || args@[i as int]@
                == seq!['-', 'm']));
            if code == 0 {
                assert(is_positional(cur[i as int]@));
                assert(is_last_positional(cur, args@[i as int]@));
            } else {
                assert(!is_positional(args@[i as int]@));
                if filename is Some {
                    let x = filename->0@;
                    let j = choose|j: int|
                        0 <= j < pre.len() && is_positional(#[trigger] pre[j]@) && x == pre[j]@
                            && forall|k: int| j < k < pre.len() ==> !is_positional(#[trigger] pre[k]@);
                    assert(is_positional(cur[j]@));
                    assert forall|k: int| j < k < cur.len() implies !is_positional(
                        #[trigger] cur[k]@,
                    ) by {
                        if k < i {
                            assert(cur[k] == pre[k]);
                        }
                    }
                    assert(is_last_positional(cur, x));
                }
            }
        }
        i = i + 1;
    }
    assert(args@.subrange(0, args@.len() as int) =~= args@);
    Ok((options, filename))
}

} // verus!
