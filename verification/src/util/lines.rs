use vstd::prelude::*;

verus! {

/// A line without the carriage return that may end it.
pub open spec fn without_return(line: Seq<char>) -> Seq<char> {
    if line.len() > 0 && line.last() == '\r' {
        line.drop_last()
    } else {
        line
    }
}

/// The lines of a text of which `current` has been read as the beginning of
/// a line and `rest` is still to come. A line feed ends a line, and a
/// carriage return just before it belongs to the line ending. What follows
/// the last line feed is a line as it stands, unless it is empty.
pub open spec fn lines_from(current: Seq<char>, rest: Seq<char>) -> Seq<Seq<char>>
    decreases rest.len(),
{
    if rest.len() == 0 {
        if current.len() == 0 {
            Seq::empty()
        } else {
            seq![current]
        }
    } else if rest.first() == '\n' {
        seq![without_return(current)] + lines_from(Seq::empty(), rest.drop_first())
    } else {
        lines_from(current.push(rest.first()), rest.drop_first())
    }
}

/// The lines of a text.
pub open spec fn lines_of(text: Seq<char>) -> Seq<Seq<char>> {
    lines_from(Seq::empty(), text)
}

/// The views of a sequence of lines.
pub open spec fn line_views(lines: Seq<Vec<char>>) -> Seq<Seq<char>> {
    Seq::new(lines.len(), |i: int| lines[i]@)
}

/// Splits a text into its lines.
pub fn split_lines(text: &str) -> (r: Vec<Vec<char>>)
    ensures
        line_views(r@) == lines_of(text@),
{
    let mut lines: Vec<Vec<char>> = Vec::new();
    let mut current: Vec<char> = Vec::new();
    proof {
        assert(text@.skip(0) =~= text@);
        assert(line_views(lines@) + lines_of(text@) =~= lines_of(text@));
    }
    for c in it: text.chars()
        invariant
            it.seq() == text@,
            lines_of(text@) == line_views(lines@) + lines_from(
                current@,
                text@.skip(it.index() as int),
            ),
    {
        let ghost rest = text@.skip(it.index() as int);
        let ghost done = line_views(lines@);
        let ghost line = current@;
        proof {
            assert(rest.first() == c);
            assert(rest.drop_first() =~= text@.skip(it.index() + 1));
        }
        if c == '\n' {
            if current.len() > 0 && current[current.len() - 1] == '\r' {
                current.pop();
            }
            lines.push(current);
            current = Vec::new();
            proof {
                assert(line_views(lines@) =~= done + seq![without_return(line)]);
                assert(done + (seq![without_return(line)] + lines_from(
                    Seq::empty(),
                    rest.drop_first(),
                )) =~= (done + seq![without_return(line)]) + lines_from(
                    Seq::empty(),
                    rest.drop_first(),
                ));
            }
        } else {
            current.push(c);
        }
    }
    let ghost done = line_views(lines@);
    proof {
        assert(text@.skip(text@.len() as int).len() == 0);
    }
    if current.len() > 0 {
        lines.push(current);
        proof {
            assert(line_views(lines@) =~= done + seq![current@]);
        }
    } else {
        proof {
            assert(done + Seq::<Seq<char>>::empty() =~= done);
        }
    }
    lines
}

} // verus!
