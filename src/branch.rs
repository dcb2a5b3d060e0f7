use vstd::prelude::*;

verus! {

/// Width of one row of the branch list, in characters.
pub const ROW_WIDTH: usize = 170;

/// `n` spaces.
pub open spec fn spaces(n: nat) -> Seq<char> {
    Seq::new(n, |_i: int| ' ')
}

/// `s` preceded by enough spaces to fill `w` characters.
pub open spec fn right_aligned(s: Seq<char>, w: nat) -> Seq<char> {
    if s.len() < w {
        spaces((w - s.len()) as nat) + s
    } else {
        s
    }
}

/// One row of the branch list: the name and the title at either end of the
/// first line, then the date, the author and the email, each right-aligned
/// on a line of its own.
pub open spec fn row_of(b: Branch) -> Seq<char> {
    let used = b.name@.len() + b.title@.len();
    let gap: nat = if used < ROW_WIDTH { (ROW_WIDTH - used) as nat } else { 0 };
    b.name@ + spaces(gap) + b.title@ + seq!['\n'] + right_aligned(b.date@, ROW_WIDTH as nat)
        + seq!['\n'] + right_aligned(b.author@, ROW_WIDTH as nat) + seq!['\n'] + right_aligned(
        b.email@,
        ROW_WIDTH as nat,
    ) + seq!['\n']
}

fn push_spaces(out: &mut String, n: usize)
    ensures
        final(out)@ == old(out)@ + spaces(n as nat),
{
    let ghost start = out@;
    let mut i: usize = 0;
    while i < n
        invariant
            i <= n,
            out@ == start + spaces(i as nat),
        decreases n - i,
    {
        proof {
            reveal_strlit(" ");
        }
        out.append(" ");
        assert(out@ =~= start + spaces((i + 1) as nat));
        i = i + 1;
    }
}

fn push_line_end(out: &mut String)
    ensures
        final(out)@ == old(out)@ + seq!['\n'],
{
    proof {
        reveal_strlit("\n");
    }
    out.append("\n");
}

fn push_right_aligned(out: &mut String, s: &str)
    ensures
        final(out)@ == old(out)@ + right_aligned(s@, ROW_WIDTH as nat),
{
    let n = s.unicode_len();
    let ghost start = out@;
    if n < ROW_WIDTH {
        push_spaces(out, ROW_WIDTH - n);
    }
    out.append(s);
    assert(out@ =~= start + right_aligned(s@, ROW_WIDTH as nat));
}

/// One branch of the repository, as the branch listing reports it.
#[derive(Debug)]
pub struct Branch {
    /// Short ref name, unique within one listing.
    pub name: String,
    /// First line of the tip commit's message.
    pub title: String,
    /// Author date, already formatted for display.
    pub date: String,
    /// Author display name.
    pub author: String,
    /// Author email address.
    pub email: String,
    /// Upstream ref as `remote/branch`, or empty when there is none.
    pub remote: String,
}

impl Branch {
    /// Two records are the same branch when every field holds the same text.
    pub open spec fn same_as(&self, other: &Branch) -> bool {
        &&& self.name@ == other.name@
        &&& self.title@ == other.title@
        &&& self.date@ == other.date@
        &&& self.author@ == other.author@
        &&& self.email@ == other.email@
        &&& self.remote@ == other.remote@
    }

    /// The record as one row of the branch list.
    pub fn row_text(&self) -> (r: String)
        ensures
            r@ == row_of(*self),
    {
        let mut out = String::new();
        let name_len = self.name.as_str().unicode_len();
        let title_len = self.title.as_str().unicode_len();
        out.append(self.name.as_str());
        if name_len < ROW_WIDTH && title_len < ROW_WIDTH - name_len {
            push_spaces(&mut out, ROW_WIDTH - name_len - title_len);
        }
        out.append(self.title.as_str());
        push_line_end(&mut out);
        push_right_aligned(&mut out, self.date.as_str());
        push_line_end(&mut out);
        push_right_aligned(&mut out, self.author.as_str());
        push_line_end(&mut out);
        push_right_aligned(&mut out, self.email.as_str());
        push_line_end(&mut out);
        assert(out@ =~= row_of(*self));
        out
    }

    /// A field-by-field copy of the record.
    pub fn duplicate(&self) -> (r: Branch)
        ensures
            r.same_as(self),
    {
        Branch {
            name: self.name.clone(),
            title: self.title.clone(),
            date: self.date.clone(),
            author: self.author.clone(),
            email: self.email.clone(),
            remote: self.remote.clone(),
        }
    }
}

impl PartialEq for Branch {
    fn eq(&self, other: &Branch) -> (r: bool) {
        self.name == other.name && self.title == other.title && self.date == other.date
            && self.author == other.author && self.email == other.email && self.remote
            == other.remote
    }
}

impl vstd::std_specs::cmp::PartialEqSpecImpl for Branch {
    open spec fn obeys_eq_spec() -> bool {
        true
    }

    open spec fn eq_spec(&self, other: &Branch) -> bool {
        self.same_as(other)
    }
}

/// Position of the first record in `branches` that is the same branch as
/// `selected_branch`, or 0 when none is.
pub fn selected_branch_index(branches: &Vec<Branch>, selected_branch: &Branch) -> (r: usize)
    ensures
        (exists|i: int| 0 <= i < branches.len() && branches[i].same_as(selected_branch)) ==> {
            &&& r < branches.len()
            &&& branches[r as int].same_as(selected_branch)
            &&& forall|j: int| 0 <= j < r ==> !branches[j].same_as(selected_branch)
        },
        !(exists|i: int| 0 <= i < branches.len() && branches[i].same_as(selected_branch))
            ==> r == 0,
{
    let mut i: usize = 0;
    while i < branches.len()
        invariant
            i <= branches.len(),
            forall|j: int| 0 <= j < i ==> !branches[j].same_as(selected_branch),
        decreases branches.len() - i,
    {
        if branches[i] == *selected_branch {
            return i;
        }
        i = i + 1;
    }
    0
}

} // verus!
