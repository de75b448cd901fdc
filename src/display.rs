//! Cleaning a path up for display.
use vstd::prelude::*;
use crate::trackedness::{Trackedness, dir_track_indecator, indicator_spec};

verus! {

/// Adds the component `cur` to the displayed path `out`, unless it is empty
/// or the current-directory component `.`.
pub open spec fn flush(out: Seq<char>, cur: Seq<char>) -> Seq<char> {
    if cur.len() == 0 || cur == seq!['.'] {
        out
    } else if out.len() == 0 || out.last() == '/' {
        out + cur
    } else {
        out + seq!['/'] + cur
    }
}

/// Reads `rest` character by character: `cur` is the component being read,
/// `out` what has been kept before it.
pub open spec fn keep_components(rest: Seq<char>, out: Seq<char>, cur: Seq<char>) -> Seq<char>
    decreases rest.len(),
{
    if rest.len() == 0 {
        flush(out, cur)
    } else if rest[0] == '/' {
        keep_components(rest.drop_first(), flush(out, cur), Seq::empty())
    } else {
        keep_components(rest.drop_first(), out, cur.push(rest[0]))
    }
}

/// The path `p` with its `.` components and repeated or trailing slashes
/// gone, and `.` itself when nothing else is left of a non-empty path.
pub open spec fn strip_dot_spec(p: Seq<char>) -> Seq<char> {
    let start = if p.len() > 0 && p[0] == '/' {
        seq!['/']
    } else {
        Seq::empty()
    };
    let r = keep_components(p, start, Seq::empty());
    if r.len() == 0 && p.len() > 0 {
        seq!['.']
    } else {
        r
    }
}

/// Appends `p[start..end]` to `out` as `flush` does.
fn flush_into(out: &mut String, p: &str, start: usize, end: usize)
    requires
        start <= end <= p@.len(),
    ensures
        final(out)@ == flush(old(out)@, p@.subrange(start as int, end as int)),
{
    let cur = p.substring_char(start, end);
    if end == start || (end - start == 1 && p.get_char(start) == '.') {
        proof {
            if end - start == 1 && p@[start as int] == '.' {
                assert(cur@ =~= seq!['.']);
            }
        }
        return;
    }
    assert(cur@ != seq!['.']) by {
        if cur@ == seq!['.'] {
            assert(cur@.len() == 1);
            assert(cur@[0] == p@[start as int]);
        }
    }
    let n = out.as_str().unicode_len();
    if n == 0 || out.as_str().get_char(n - 1) == '/' {
        out.append(cur);
    } else {
        proof { reveal_strlit("/"); }
        out.append("/");
        out.append(cur);
    }
}

/// The path for display: `./src/a.txt` shows as `src/a.txt`, and `.` stays `.`.
pub fn strip_dot(p: &str) -> (r: String)
    ensures
        r@ == strip_dot_spec(p@),
{
    let n = p.unicode_len();
    let mut out = String::new();
    if n > 0 && p.get_char(0) == '/' {
        proof { reveal_strlit("/"); }
        out.append("/");
    }
    let ghost init = out@;
    assert(init =~= (if p@.len() > 0 && p@[0] == '/' {
        seq!['/']
    } else {
        Seq::<char>::empty()
    }));
    let mut start: usize = 0;
    let mut i: usize = 0;
    assert(p@.subrange(0, n as int) =~= p@);
    assert(p@.subrange(0, 0) =~= Seq::<char>::empty());
    while i < n
        invariant
            n == p@.len(),
            0 <= start <= i <= n,
            keep_components(p@, init, Seq::empty()) == keep_components(
                p@.subrange(i as int, n as int),
                out@,
                p@.subrange(start as int, i as int),
            ),
        decreases n - i,
    {
        let ghost rest = p@.subrange(i as int, n as int);
        assert(rest.drop_first() =~= p@.subrange(i + 1, n as int));
        if p.get_char(i) == '/' {
            flush_into(&mut out, p, start, i);
            i = i + 1;
            start = i;
            assert(p@.subrange(start as int, i as int) =~= Seq::<char>::empty());
        } else {
            assert(p@.subrange(start as int, i as int).push(p@[i as int]) =~= p@.subrange(
                start as int,
                i + 1,
            ));
            i = i + 1;
        }
    }
    assert(p@.subrange(n as int, n as int) =~= Seq::<char>::empty());
    assert(keep_components(p@, init, Seq::empty()) == flush(
        out@,
        p@.subrange(start as int, n as int),
    ));
    flush_into(&mut out, p, start, n);
    assert(out@ == keep_components(p@, init, Seq::empty()));
    if out.as_str().unicode_len() == 0 && n > 0 {
        proof { reveal_strlit("."); }
        let dot = String::from_str(".");
        assert(dot@ =~= seq!['.']);
        return dot;
    }
    out
}

/// The line shown for an entry named `name` with the verdict `t`. A
/// directory with nothing tracked is left out, any other directory carries
/// its mark (after a colon when it heads a listing of its own entries); a
/// file or symlink is shown only when it is tracked.
pub open spec fn line_spec(name: Seq<char>, is_dir: bool, heading: bool, t: Trackedness) -> Option<
    Seq<char>,
> {
    if is_dir {
        if t == Trackedness::Untracked {
            Option::None
        } else if heading {
            Option::Some(name + seq![':', ' '] + indicator_spec(t))
        } else {
            Option::Some(name + seq![' '] + indicator_spec(t))
        }
    } else if t == Trackedness::All {
        Option::Some(name)
    } else {
        Option::None
    }
}

/// The line to print for an entry, or none when it is not shown.
pub fn entry_line(name: &str, is_dir: bool, heading: bool, t: Trackedness) -> (r: Option<String>)
    ensures
        line_spec(name@, is_dir, heading, t) == (match r {
            Option::Some(s) => Option::Some(s@),
            Option::None => Option::None,
        }),
{
    if is_dir {
        if t == Trackedness::Untracked {
            return Option::None;
        }
        let mut out = String::from_str(name);
        if heading {
            proof { reveal_strlit(": "); }
            out.append(": ");
        } else {
            proof { reveal_strlit(" "); }
            out.append(" ");
        }
        out.append(dir_track_indecator(t));
        Option::Some(out)
    } else if t == Trackedness::All {
        Option::Some(String::from_str(name))
    } else {
        Option::None
    }
}

} // verus!
