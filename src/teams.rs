use vstd::prelude::*;

use crate::text::starts_with;

verus! {

/// Most players a team takes.
pub const TEAM_CAP: usize = 5;

/// How many of `n` players go to team A: half of them, rounded down, at most a full team.
pub open spec fn team_a_len(n: int) -> int {
    if n / 2 < TEAM_CAP {
        n / 2
    } else {
        TEAM_CAP as int
    }
}

/// How many of `n` players go to team B: those after team A, at most a full team.
pub open spec fn team_b_len(n: int) -> int {
    if n - team_a_len(n) < TEAM_CAP {
        n - team_a_len(n)
    } else {
        TEAM_CAP as int
    }
}

/// Team A of the list `s`: its first `team_a_len` names.
pub open spec fn team_a_of(s: Seq<Seq<char>>) -> Seq<Seq<char>> {
    s.subrange(0, team_a_len(s.len() as int))
}

/// Team B of the list `s`: the `team_b_len` names right after team A.
pub open spec fn team_b_of(s: Seq<Seq<char>>) -> Seq<Seq<char>> {
    let a = team_a_len(s.len() as int);
    s.subrange(a, a + team_b_len(s.len() as int))
}

/// The waitlist of the list `s`: every name after both teams.
pub open spec fn waitlist_of(s: Seq<Seq<char>>) -> Seq<Seq<char>> {
    s.subrange(team_a_len(s.len() as int) + team_b_len(s.len() as int), s.len() as int)
}

/// The separator between names in a rendered section.
pub open spec fn name_separator() -> Seq<char> {
    seq![',', ' ']
}

/// The names of `s` joined by `", "`.
pub open spec fn join(s: Seq<Seq<char>>) -> Seq<char>
    decreases s.len(),
{
    if s.len() == 0 {
        Seq::empty()
    } else if s.len() == 1 {
        s[0]
    } else {
        join(s.drop_last()) + name_separator() + s.last()
    }
}

/// The heading that opens the message, above team A.
pub open spec fn team_a_heading() -> Seq<char> {
    "# Time A 🔫\n "@
}

/// The heading between team A and team B.
pub open spec fn team_b_heading() -> Seq<char> {
    "\n\n# Time B 🔫\n "@
}

/// The heading of the waitlist section.
pub open spec fn waitlist_heading() -> Seq<char> {
    "\n\n# Lista de Espera ⏳\n "@
}

/// The two team sections, always present, even when a team is empty.
pub open spec fn team_sections(a: Seq<Seq<char>>, b: Seq<Seq<char>>) -> Seq<char> {
    team_a_heading() + join(a) + team_b_heading() + join(b)
}

/// The waitlist section; nothing at all when the waitlist is empty.
pub open spec fn waitlist_section(w: Seq<Seq<char>>) -> Seq<char> {
    if w.len() > 0 {
        waitlist_heading() + join(w)
    } else {
        Seq::empty()
    }
}

/// The message that shows teams `a` and `b` and the waitlist `w`.
pub open spec fn render_text(
    a: Seq<Seq<char>>,
    b: Seq<Seq<char>>,
    w: Seq<Seq<char>>,
) -> Seq<char> {
    team_sections(a, b) + waitlist_section(w)
}

/// The message that shows the partition of the (already shuffled) list `s`.
pub open spec fn team_message(s: Seq<Seq<char>>) -> Seq<char> {
    render_text(team_a_of(s), team_b_of(s), waitlist_of(s))
}

/// For every list of `n` players: team A holds `min(n / 2, 5)` of them, team B
/// `min(n - |A|, 5)`, the waitlist the rest, and the three together hold each player
/// of the list exactly once.
pub proof fn lemma_partition_sizes(s: Seq<Seq<char>>)
    ensures
        team_a_of(s).len() == if s.len() / 2 < 5 {
            s.len() / 2
        } else {
            5
        },
        team_b_of(s).len() == if s.len() - team_a_of(s).len() < 5 {
            s.len() - team_a_of(s).len()
        } else {
            5
        },
        waitlist_of(s).len() == s.len() - team_a_of(s).len() - team_b_of(s).len(),
        team_a_of(s).len() <= 5,
        team_b_of(s).len() <= 5,
        (team_a_of(s) + team_b_of(s) + waitlist_of(s)).to_multiset() == s.to_multiset(),
{
    assert(team_a_of(s) + team_b_of(s) + waitlist_of(s) =~= s);
}

/// The rendered message always opens with the team A heading and holds the team B
/// heading right after team A's names; it is exactly the two team sections, with no
/// waitlist section, if and only if the waitlist is empty.
pub proof fn lemma_render_sections(a: Seq<Seq<char>>, b: Seq<Seq<char>>, w: Seq<Seq<char>>)
    ensures
        starts_with(render_text(a, b, w), team_a_heading()),
        render_text(a, b, w).subrange(
            (team_a_heading().len() + join(a).len()) as int,
            (team_a_heading().len() + join(a).len() + team_b_heading().len()) as int,
        ) == team_b_heading(),
        (render_text(a, b, w) == team_sections(a, b)) <==> w.len() == 0,
        w.len() > 0 ==> render_text(a, b, w) == team_sections(a, b) + waitlist_heading() + join(w),
{
    reveal_strlit("\n\n# Lista de Espera ⏳\n ");
    let r = render_text(a, b, w);
    let ha = team_a_heading();
    assert(r.subrange(0, ha.len() as int) =~= ha);
    let k = (ha.len() + join(a).len()) as int;
    assert(r.subrange(k, k + team_b_heading().len()) =~= team_b_heading());
    if w.len() > 0 {
        assert(r.len() > team_sections(a, b).len());
        assert(r =~= team_sections(a, b) + waitlist_heading() + join(w));
    } else {
        assert(r =~= team_sections(a, b));
    }
}

/// Two teams and a waitlist drawn from one list of players.
pub struct Partition {
    pub team_a: Vec<String>,
    pub team_b: Vec<String>,
    pub waitlist: Vec<String>,
}

impl Partition {
    /// Whether this partition is the one that `partition` makes of `s`.
    pub open spec fn splits(&self, s: Seq<Seq<char>>) -> bool {
        &&& self.team_a.deep_view() == team_a_of(s)
        &&& self.team_b.deep_view() == team_b_of(s)
        &&& self.waitlist.deep_view() == waitlist_of(s)
    }

    /// The message that shows this partition.
    pub open spec fn text(&self) -> Seq<char> {
        render_text(self.team_a.deep_view(), self.team_b.deep_view(), self.waitlist.deep_view())
    }
}

/// The names of `v` from index `from` up to, not including, `to`.
pub(crate) fn copy_range(v: &Vec<String>, from: usize, to: usize) -> (r: Vec<String>)
    requires
        from <= to <= v.len(),
    ensures
        r.deep_view() == v.deep_view().subrange(from as int, to as int),
{
    let mut r: Vec<String> = Vec::new();
    let mut i: usize = from;
    while i < to
        invariant
            from <= i <= to <= v.len(),
            r@ == v@.subrange(from as int, i as int),
        decreases to - i,
    {
        r.push(v[i].clone());
        assert(r@ =~= v@.subrange(from as int, i + 1));
        i = i + 1;
    }
    assert(r.deep_view() =~= v.deep_view().subrange(from as int, to as int));
    r
}

/// Splits a shuffled list into team A (half the players, rounded down, at most five),
/// team B (the next players, at most five) and the waitlist (everyone else), keeping
/// the list's order.
pub fn partition(shuffled: &Vec<String>) -> (p: Partition)
    ensures
        p.splits(shuffled.deep_view()),
{
    let n = shuffled.len();
    let half = if n / 2 < TEAM_CAP {
        n / 2
    } else {
        TEAM_CAP
    };
    let second = if n - half < TEAM_CAP {
        n - half
    } else {
        TEAM_CAP
    };
    Partition {
        team_a: copy_range(shuffled, 0, half),
        team_b: copy_range(shuffled, half, half + second),
        waitlist: copy_range(shuffled, half + second, n),
    }
}

/// The names of `v` joined by `", "`.
pub fn join_names(v: &Vec<String>) -> (r: String)
    ensures
        r@ == join(v.deep_view()),
{
    let mut r = String::new();
    if v.len() == 0 {
        return r;
    }
    r.append(v[0].as_str());
    let mut i: usize = 1;
    assert(v.deep_view().subrange(0, 1).drop_last() =~= Seq::<Seq<char>>::empty());
    while i < v.len()
        invariant
            1 <= i <= v.len(),
            r@ == join(v.deep_view().subrange(0, i as int)),
        decreases v.len() - i,
    {
        proof {
            reveal_strlit(", ");
        }
        r.append(", ");
        r.append(v[i].as_str());
        assert(v.deep_view().subrange(0, i + 1).drop_last() =~= v.deep_view().subrange(
            0,
            i as int,
        ));
        assert(", "@ =~= name_separator());
        i = i + 1;
    }
    assert(v.deep_view().subrange(0, v.len() as int) =~= v.deep_view());
    r
}

/// The message that shows `p`: the team A and team B sections, each always present,
/// and the waitlist section only when the waitlist is not empty.
pub fn render(p: &Partition) -> (r: String)
    ensures
        r@ == p.text(),
{
    let mut r = String::from_str("# Time A 🔫\n ");
    r.append(join_names(&p.team_a).as_str());
    r.append("\n\n# Time B 🔫\n ");
    r.append(join_names(&p.team_b).as_str());
    if p.waitlist.len() > 0 {
        r.append("\n\n# Lista de Espera ⏳\n ");
        r.append(join_names(&p.waitlist).as_str());
    }
    assert(r@ =~= p.text());
    r
}

/// The message that shows the partition of the shuffled list `users`.
pub fn create_team_message(users: &Vec<String>) -> (r: String)
    ensures
        r@ == team_message(users.deep_view()),
{
    render(&partition(users))
}

} // verus!
