use vstd::prelude::*;

verus! {

/// Helper for [`lines_of`]: the lines of `rest`, where `cur` holds the
/// characters of the current line read so far.
pub open spec fn split_acc(rest: Seq<char>, cur: Seq<char>) -> Seq<Seq<char>>
    decreases rest.len(),
{
    if rest.len() == 0 {
        seq![cur]
    } else if rest[0] == '\n' {
        seq![cur] + split_acc(rest.drop_first(), Seq::<char>::empty())
    } else {
        split_acc(rest.drop_first(), cur.push(rest[0]))
    }
}

/// The lines of a text: the maximal stretches between `'\n'` characters.
/// A text with `k` newlines has exactly `k + 1` lines; the empty text has
/// one empty line.
pub open spec fn lines_of(text: Seq<char>) -> Seq<Seq<char>> {
    split_acc(text, Seq::<char>::empty())
}

/// Splits a text into its lines, in order. Used to turn the contents of an
/// ignore file into individual pattern lines.
pub fn split_lines(text: &String) -> (lines: Vec<String>)
    ensures
        lines.deep_view() == lines_of(text@),
{
    let s = text.as_str();
    let n = s.unicode_len();
    let mut lines: Vec<String> = Vec::new();
    let mut start: usize = 0;
    let mut i: usize = 0;
    proof {
        assert(s@.skip(0) =~= s@);
        assert(s@.subrange(0, 0) =~= Seq::<char>::empty());
        assert(lines.deep_view() =~= Seq::<Seq<char>>::empty());
        assert(lines.deep_view() + split_acc(s@.skip(0), s@.subrange(0, 0)) =~= lines_of(text@));
    }
    while i < n
        invariant
            start <= i <= n,
            n == s@.len(),
            s@ == text@,
            lines_of(text@) == lines.deep_view() + split_acc(
                s@.skip(i as int),
                s@.subrange(start as int, i as int),
            ),
        decreases n - i,
    {
        let c = s.get_char(i);
        proof {
            let rest = s@.skip(i as int);
            assert(rest[0] == s@[i as int]);
            assert(rest.drop_first() =~= s@.skip(i as int + 1));
        }
        if c == '\n' {
            let line = String::from_str(s.substring_char(start, i));
            let ghost pre = lines.deep_view();
            let ghost cur = s@.subrange(start as int, i as int);
            lines.push(line);
            proof {
                assert(lines.deep_view() =~= pre.push(cur));
                assert(pre.push(cur) + split_acc(s@.skip(i as int + 1), Seq::<char>::empty()) =~=
                pre + (seq![cur] + split_acc(s@.skip(i as int + 1), Seq::<char>::empty())));
                assert(split_acc(s@.skip(i as int), cur) == seq![cur] + split_acc(
                    s@.skip(i as int + 1),
                    Seq::<char>::empty(),
                ));
                assert(s@.subrange(i as int + 1, i as int + 1) =~= Seq::<char>::empty());
                assert(lines.deep_view() + split_acc(
                    s@.skip(i as int + 1),
                    s@.subrange(i as int + 1, i as int + 1),
                ) =~= pre + split_acc(s@.skip(i as int), cur));
            }
            start = i + 1;
        } else {
            proof {
                assert(s@.subrange(start as int, i as int + 1) =~= s@.subrange(
                    start as int,
                    i as int,
                ).push(s@[i as int]));
                assert(split_acc(s@.skip(i as int), s@.subrange(start as int, i as int))
                    == split_acc(s@.skip(i as int + 1), s@.subrange(start as int, i as int + 1)));
            }
        }
        i = i + 1;
    }
    let last = String::from_str(s.substring_char(start, n));
    let ghost pre = lines.deep_view();
    let ghost cur = s@.subrange(start as int, n as int);
    lines.push(last);
    proof {
        assert(s@.skip(n as int) =~= Seq::<char>::empty());
        assert(split_acc(s@.skip(n as int), cur) == seq![cur]);
        assert(lines.deep_view() =~= pre.push(cur));
        assert(pre.push(cur) =~= pre + seq![cur]);
    }
    lines
}

} // verus!
