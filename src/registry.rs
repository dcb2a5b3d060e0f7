use vstd::prelude::*;

use crate::branch::Branch;
use crate::text::{chars_of, split_bounds, split_by};

verus! {

/// Why the branch listing could not be read.
#[derive(PartialEq, Eq, Structural, Clone, Copy, Debug)]
pub enum RegistryError {
    /// The listing command could not be run or reported failure.
    QueryFailed,
    /// The listing was not valid text.
    InvalidText,
    /// The record on the given line (counted from 0) has fewer than six fields.
    MalformedRecord { line: usize },
}

/// Text between the fields of one record.
pub open spec fn field_sep() -> Seq<char> {
    seq!['-', '-', '-']
}

/// The fields of one record of the listing.
pub open spec fn record_fields(line: Seq<char>) -> Seq<Seq<char>> {
    split_by(line, field_sep())
}

/// A record holds at least the six fields of a branch; any further ones are
/// ignored.
pub open spec fn is_record(line: Seq<char>) -> bool {
    record_fields(line).len() >= 6
}

/// `b` is the branch that the record `line` describes.
pub open spec fn describes(b: Branch, line: Seq<char>) -> bool {
    let f = record_fields(line);
    &&& b.name@ == f[0]
    &&& b.title@ == f[1]
    &&& b.date@ == f[2]
    &&& b.author@ == f[3]
    &&& b.email@ == f[4]
    &&& b.remote@ == f[5]
}

/// A line without the carriage return that may end it.
pub open spec fn strip_cr(l: Seq<char>) -> Seq<char> {
    if l.len() > 0 && l.last() == '\r' {
        l.drop_last()
    } else {
        l
    }
}

/// The lines of `s`: split at each line feed, a carriage return before the
/// feed dropped; a final line feed ends the last line and starts none.
pub open spec fn lines_of(s: Seq<char>) -> Seq<Seq<char>> {
    let p = split_by(s, seq!['\n']);
    let body = Seq::new((p.len() - 1) as nat, |k: int| strip_cr(p[k]));
    if p.last().len() == 0 {
        body
    } else {
        body.push(p.last())
    }
}

/// The branch that one record of the listing describes, or `None` when the
/// record has fewer than six fields.
pub fn parse_branch(line: &str) -> (r: Option<Branch>)
    ensures
        r is Some <==> is_record(line@),
        r matches Some(b) ==> describes(b, line@),
{
    let chars = chars_of(line);
    let mut sep: Vec<char> = Vec::new();
    sep.push('-');
    sep.push('-');
    sep.push('-');
    assert(sep@ == field_sep());
    let bounds = split_bounds(&chars, &sep);
    if bounds.len() < 6 {
        return None;
    }
    let ghost f = record_fields(line@);
    assert(f[0] == line@.subrange(bounds[0].0 as int, bounds[0].1 as int));
    assert(f[1] == line@.subrange(bounds[1].0 as int, bounds[1].1 as int));
    assert(f[2] == line@.subrange(bounds[2].0 as int, bounds[2].1 as int));
    assert(f[3] == line@.subrange(bounds[3].0 as int, bounds[3].1 as int));
    assert(f[4] == line@.subrange(bounds[4].0 as int, bounds[4].1 as int));
    assert(f[5] == line@.subrange(bounds[5].0 as int, bounds[5].1 as int));
    Some(
        Branch {
            name: line.substring_char(bounds[0].0, bounds[0].1).to_owned(),
            title: line.substring_char(bounds[1].0, bounds[1].1).to_owned(),
            date: line.substring_char(bounds[2].0, bounds[2].1).to_owned(),
            author: line.substring_char(bounds[3].0, bounds[3].1).to_owned(),
            email: line.substring_char(bounds[4].0, bounds[4].1).to_owned(),
            remote: line.substring_char(bounds[5].0, bounds[5].1).to_owned(),
        },
    )
}

/// The branches of a whole listing, one record per line, in the listing's
/// order; the first line that holds no record is reported.
pub fn parse_listing(output: &str) -> (r: Result<Vec<Branch>, RegistryError>)
    ensures
        r is Ok <==> forall|k: int| 0 <= k < lines_of(output@).len() ==> is_record(
            #[trigger] lines_of(output@)[k],
        ),
        r matches Ok(v) ==> {
            &&& v.len() == lines_of(output@).len()
            &&& forall|k: int| 0 <= k < v.len() ==> describes(#[trigger] v[k], lines_of(output@)[k])
        },
        r matches Err(e) ==> e matches RegistryError::MalformedRecord { line } && {
            &&& line < lines_of(output@).len()
            &&& !is_record(lines_of(output@)[line as int])
            &&& forall|k: int| 0 <= k < line ==> is_record(#[trigger] lines_of(output@)[k])
        },
{
    let ghost s = output@;
    let ghost lines = lines_of(s);
    let ghost p = split_by(s, seq!['\n']);
    let chars = chars_of(output);
    let mut nl: Vec<char> = Vec::new();
    nl.push('\n');
    assert(nl@ == seq!['\n']);
    let bounds = split_bounds(&chars, &nl);
    let last = bounds.len() - 1;
    let count = if bounds[last].0 == bounds[last].1 {
        last
    } else {
        bounds.len()
    };
    assert(p[last as int] == s.subrange(bounds[last as int].0 as int, bounds[last as int].1 as int));
    assert(count == lines.len());
    let mut v: Vec<Branch> = Vec::new();
    let mut j: usize = 0;
    while j < count
        invariant
            s == output@,
            chars@ == s,
            lines == lines_of(s),
            p == split_by(s, seq!['\n']),
            bounds.len() == p.len(),
            last == p.len() - 1,
            count == lines.len(),
            count <= bounds.len(),
            forall|k: int|
                #![trigger bounds[k]]
                0 <= k < bounds.len() ==> {
                    &&& bounds[k].0 <= bounds[k].1 <= chars.len()
                    &&& p[k] == s.subrange(bounds[k].0 as int, bounds[k].1 as int)
                },
            j <= count,
            v.len() == j,
            forall|k: int| 0 <= k < j ==> is_record(#[trigger] lines[k]),
            forall|k: int| 0 <= k < j ==> describes(#[trigger] v[k], lines[k]),
        decreases count - j,
    {
        let a = bounds[j].0;
        let mut b = bounds[j].1;
        assert(p[j as int] == s.subrange(a as int, b as int));
        if j < last && b > a && chars[b - 1] == '\r' {
            b = b - 1;
            assert(s.subrange(a as int, b as int) =~= strip_cr(p[j as int]));
        } else if j < last {
            assert(s.subrange(a as int, b as int) =~= strip_cr(p[j as int]));
        }
        assert(s.subrange(a as int, b as int) == lines[j as int]);
        let line = output.substring_char(a, b);
        match parse_branch(line) {
            Some(branch) => {
                v.push(branch);
            },
            None => {
                return Err(RegistryError::MalformedRecord { line: j });
            },
        }
        j = j + 1;
    }
    Ok(v)
}

} // verus!
