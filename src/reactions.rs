use vstd::prelude::*;
use crate::protocol::{MessageView, reaction_entries, texts};

verus! {

/// The test that keeps every username but one.
pub open spec fn other_than(u: Seq<char>) -> spec_fn(Seq<char>) -> bool {
    |x: Seq<char>| x != u
}

/// A user's mark toggled in a list of usernames: every copy removed where it
/// is present, appended where it is absent.
pub open spec fn toggled_users(us: Seq<Seq<char>>, u: Seq<char>) -> Seq<Seq<char>> {
    if us.contains(u) {
        us.filter(other_than(u))
    } else {
        us.push(u)
    }
}

/// The position of the first entry for an emoji, or the length where there is
/// none.
pub open spec fn first_entry(rs: Seq<(Seq<char>, Seq<Seq<char>>)>, e: Seq<char>) -> int
    decreases rs.len(),
{
    if rs.len() == 0 {
        0
    } else if rs[0].0 == e {
        0
    } else {
        1 + first_entry(rs.drop_first(), e)
    }
}

/// The reaction entries after a user toggles an emoji: the first entry for
/// the emoji has the user toggled, or a new entry holding only the user is
/// appended.
pub open spec fn toggle_in(
    rs: Seq<(Seq<char>, Seq<Seq<char>>)>,
    e: Seq<char>,
    u: Seq<char>,
) -> Seq<(Seq<char>, Seq<Seq<char>>)> {
    let i = first_entry(rs, e);
    if i < rs.len() {
        rs.update(i, (e, toggled_users(rs[i].1, u)))
    } else {
        rs.push((e, seq![u]))
    }
}

/// Absent reactions read as no entries.
pub open spec fn entries_of(r: Option<Seq<(Seq<char>, Seq<Seq<char>>)>>) -> Seq<(Seq<char>, Seq<Seq<char>>)> {
    match r {
        Some(rs) => rs,
        None => Seq::empty(),
    }
}

/// The users who reacted to a message with an emoji: those of its first entry
/// for the emoji, none where it has no such entry.
pub open spec fn reactors(m: MessageView, e: Seq<char>) -> Seq<Seq<char>> {
    let rs = entries_of(m.reactions);
    let i = first_entry(rs, e);
    if i < rs.len() {
        rs[i].1
    } else {
        Seq::empty()
    }
}

pub(crate) proof fn lemma_first_entry(rs: Seq<(Seq<char>, Seq<Seq<char>>)>, e: Seq<char>, i: int)
    requires
        0 <= i <= rs.len(),
        forall|k: int| 0 <= k < i ==> (#[trigger] rs[k]).0 != e,
        i == rs.len() || rs[i].0 == e,
    ensures
        first_entry(rs, e) == i,
    decreases i,
{
    if i > 0 {
        assert(rs[0].0 != e);
        assert forall|k: int| 0 <= k < i - 1 implies (#[trigger] rs.drop_first()[k]).0 != e by {
            assert(rs.drop_first()[k] == rs[k + 1]);
        }
        lemma_first_entry(rs.drop_first(), e, i - 1);
    }
}

fn toggle_user(us: Vec<String>, u: &String) -> (r: Vec<String>)
    ensures
        texts(r@) == toggled_users(texts(us@), u@),
{
    let ghost pred = other_than(u@);
    let mut found = false;
    let mut i: usize = 0;
    while i < us.len()
        invariant
            0 <= i <= us@.len(),
            found <==> exists|k: int| 0 <= k < i && (#[trigger] us@[k])@ == u@,
        decreases us@.len() - i,
    {
        if us[i] == *u {
            found = true;
        }
        i += 1;
    }
    assert(found <==> texts(us@).contains(u@)) by {
        if found {
            let k = choose|k: int| 0 <= k < us@.len() && (#[trigger] us@[k])@ == u@;
            assert(texts(us@)[k] == u@);
        }
        if texts(us@).contains(u@) {
            let k = choose|k: int| 0 <= k < texts(us@).len() && texts(us@)[k] == u@;
            assert(us@[k]@ == u@);
        }
    }
    if found {
        let mut out: Vec<String> = Vec::new();
        let mut j: usize = 0;
        while j < us.len()
            invariant
                0 <= j <= us@.len(),
                found <==> texts(us@).contains(u@),
                pred == other_than(u@),
                texts(out@) == texts(us@).subrange(0, j as int).filter(pred),
            decreases us@.len() - j,
        {
            let ghost prefix = texts(us@).subrange(0, j + 1);
            assert(prefix.drop_last() == texts(us@).subrange(0, j as int));
            assert(prefix.last() == us@[j as int]@);
            reveal(Seq::filter);
            assert(prefix.filter(pred) == if pred(prefix.last()) {
                prefix.drop_last().filter(pred).push(prefix.last())
            } else {
                prefix.drop_last().filter(pred)
            });
            if !(us[j] == *u) {
                out.push(us[j].clone());
                assert(texts(out@) =~= texts(us@).subrange(0, j as int).filter(pred).push(us@[j as int]@));
                assert(pred(prefix.last()));
            } else {
                assert(!pred(prefix.last()));
            }
            assert(texts(out@) == prefix.filter(pred));
            j += 1;
        }
        assert(texts(us@).subrange(0, us@.len() as int) == texts(us@));
        out
    } else {
        let mut out = us;
        out.push(u.clone());
        assert(texts(out@) == texts(us@).push(u@));
        out
    }
}

pub(crate) fn toggle_entry(rs: Vec<(String, Vec<String>)>, e: String, u: &String) -> (r: Vec<(String, Vec<String>)>)
    ensures
        reaction_entries(r@) == toggle_in(reaction_entries(rs@), e@, u@),
{
    let ghost view = reaction_entries(rs@);
    let mut i: usize = 0;
    while i < rs.len() && !(rs[i].0 == e)
        invariant
            0 <= i <= rs@.len(),
            view == reaction_entries(rs@),
            forall|k: int| 0 <= k < i ==> (#[trigger] view[k]).0 != e@,
        decreases rs@.len() - i,
    {
        i += 1;
    }
    proof {
        lemma_first_entry(view, e@, i as int);
    }
    let mut rs = rs;
    if i < rs.len() {
        let (e0, us) = rs.remove(i);
        let us = toggle_user(us, u);
        rs.insert(i, (e0, us));
        assert(reaction_entries(rs@) =~= view.update(i as int, (e@, toggled_users(view[i as int].1, u@))));
    } else {
        let mut us: Vec<String> = Vec::new();
        us.push(u.clone());
        rs.push((e, us));
        assert(texts(us@) == seq![u@]);
        assert(reaction_entries(rs@) =~= view.push((e@, seq![u@])));
    }
    rs
}

pub(crate) proof fn lemma_first_entry_bounds(rs: Seq<(Seq<char>, Seq<Seq<char>>)>, e: Seq<char>)
    ensures
        0 <= first_entry(rs, e) <= rs.len(),
        forall|k: int| 0 <= k < first_entry(rs, e) ==> (#[trigger] rs[k]).0 != e,
        first_entry(rs, e) < rs.len() ==> rs[first_entry(rs, e)].0 == e,
    decreases rs.len(),
{
    if rs.len() > 0 && rs[0].0 != e {
        lemma_first_entry_bounds(rs.drop_first(), e);
        assert forall|k: int| 0 <= k < first_entry(rs, e) implies (#[trigger] rs[k]).0 != e by {
            if k > 0 {
                assert(rs[k] == rs.drop_first()[k - 1]);
            }
        }
    }
}

/// Toggling keeps the entry of the emoji where it was, or appends it.
pub(crate) proof fn lemma_toggle_in_entry(rs: Seq<(Seq<char>, Seq<Seq<char>>)>, e: Seq<char>, u: Seq<char>)
    ensures
        first_entry(toggle_in(rs, e, u), e) == first_entry(rs, e),
        first_entry(rs, e) < rs.len() ==> toggle_in(rs, e, u)[first_entry(rs, e)].1 == toggled_users(
            rs[first_entry(rs, e)].1,
            u,
        ),
        first_entry(rs, e) == rs.len() ==> toggle_in(rs, e, u)[first_entry(rs, e)].1 == seq![u],
        toggle_in(rs, e, u).len() == if first_entry(rs, e) < rs.len() {
            rs.len()
        } else {
            rs.len() + 1
        },
        forall|k: int|
            0 <= k < rs.len() && k != first_entry(rs, e) ==> #[trigger] toggle_in(rs, e, u)[k] == rs[k],
{
    lemma_first_entry_bounds(rs, e);
    let i = first_entry(rs, e);
    let t = toggle_in(rs, e, u);
    assert forall|k: int| 0 <= k < i implies (#[trigger] t[k]).0 != e by {
        assert(t[k] == rs[k]);
    }
    lemma_first_entry(t, e, i);
}

pub(crate) proof fn lemma_filter_membership(us: Seq<Seq<char>>, u: Seq<char>, x: Seq<char>)
    ensures
        us.filter(other_than(u)).contains(x) <==> (us.contains(x) && x != u),
{
    let p = other_than(u);
    if us.filter(p).contains(x) {
        us.lemma_filter_contains_rev(p, x);
        let k = choose|k: int| 0 <= k < us.filter(p).len() && us.filter(p)[k] == x;
        us.lemma_filter_pred(p, k);
    }
    if us.contains(x) && x != u {
        let k = choose|k: int| 0 <= k < us.len() && us[k] == x;
        us.lemma_filter_contains(p, k);
    }
}

pub(crate) proof fn lemma_filter_unique(us: Seq<Seq<char>>, u: Seq<char>)
    requires
        us.no_duplicates(),
    ensures
        us.filter(other_than(u)).no_duplicates(),
    decreases us.len(),
{
    let p = other_than(u);
    reveal(Seq::filter);
    if us.len() > 0 {
        let rest = us.drop_last();
        assert(rest.no_duplicates());
        lemma_filter_unique(rest, u);
        if p(us.last()) {
            if rest.filter(p).contains(us.last()) {
                rest.lemma_filter_contains_rev(p, us.last());
                let k = choose|k: int| 0 <= k < rest.len() && rest[k] == us.last();
                assert(us[k] == us[us.len() - 1]);
            }
            assert(rest.filter(p).push(us.last()).no_duplicates());
        }
    }
}

/// Toggling a user twice gives back the same members.
pub proof fn lemma_toggled_users_twice(us: Seq<Seq<char>>, u: Seq<char>)
    ensures
        toggled_users(toggled_users(us, u), u).to_set() == us.to_set(),
{
    let once = toggled_users(us, u);
    let twice = toggled_users(once, u);
    if us.contains(u) {
        lemma_filter_membership(us, u, u);
        assert(!once.contains(u));
        assert(twice == once.push(u));
        assert(twice[once.len() as int] == u);
        assert forall|x: Seq<char>| twice.contains(x) <==> us.contains(x) by {
            lemma_filter_membership(us, u, x);
            if twice.contains(x) && x != u {
                let k = choose|k: int| 0 <= k < twice.len() && twice[k] == x;
                assert(k < once.len());
                assert(once[k] == x);
            }
            if once.contains(x) {
                let k = choose|k: int| 0 <= k < once.len() && once[k] == x;
                assert(twice[k] == x);
            }
        }
    } else {
        assert(once == us.push(u));
        assert(once[us.len() as int] == u);
        assert(once.contains(u));
        assert(twice == once.filter(other_than(u)));
        assert forall|x: Seq<char>| twice.contains(x) <==> us.contains(x) by {
            lemma_filter_membership(once, u, x);
            if us.contains(x) {
                let k = choose|k: int| 0 <= k < us.len() && us[k] == x;
                assert(once[k] == x);
            }
            if once.contains(x) && x != u {
                let k = choose|k: int| 0 <= k < once.len() && once[k] == x;
                assert(k < us.len());
                assert(us[k] == x);
            }
        }
    }
    assert(twice.to_set() =~= us.to_set());
}

} // verus!
