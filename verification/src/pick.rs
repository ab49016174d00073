//! Which session is next: in turn, the last one again, or a new one.
use vstd::arithmetic::div_mod::{lemma_add_mod_noop, lemma_fundamental_div_mod, lemma_mod_bound};
use vstd::arithmetic::div_mod::{lemma_mod_twice, lemma_small_mod};
use vstd::prelude::*;

use crate::error::{Error, ErrorKind};
use crate::numbers::{decimal, decimal_is_injective, write_decimal};
use crate::state::{GlobalState, GlobalStateView};
use crate::text::{holds_text, same_text, texts};

verus! {

// ---------------------------------------------------------------------------
// Existing sessions
// ---------------------------------------------------------------------------
/// What is picked, or what is wrong, and the state after that.
pub open spec fn picked(
    aliases: Seq<Seq<char>>,
    g: GlobalStateView,
    pick_behavior: Seq<char>,
) -> (Result<Seq<char>, Seq<char>>, GlobalStateView) {
    if pick_behavior == "last"@ {
        if g.last_alias.len() == 0 {
            (Err("no previous session recorded; run agentlb or agentlb new <alias> first"@), g)
        } else if aliases.contains(g.last_alias) {
            (Ok(g.last_alias), g)
        } else {
            (Err("last session no longer exists; run agentlb or agentlb new <alias> first"@), g)
        }
    } else {
        (
            Ok(aliases[g.round_robin_index % aliases.len() as int]),
            GlobalStateView {
                round_robin_index: (g.round_robin_index + 1) % aliases.len() as int,
                ..g
            },
        )
    }
}

/// Whether a session can be picked: in turn only where there is one, and where the place of the
/// next has a successor.
pub open spec fn pickable(
    aliases: Seq<Seq<char>>,
    g: GlobalStateView,
    pick_behavior: Seq<char>,
) -> bool {
    pick_behavior != "last"@ ==> aliases.len() > 0 && g.round_robin_index < usize::MAX
}

/// Picks a session: the last one again where `pick_behavior` says so, and else the next in turn.
pub fn pick_alias(aliases: &[String], g: &mut GlobalState, pick_behavior: &str) -> (r: Result<
    String,
    Error,
>)
    requires
        pickable(texts(aliases@), old(g)@, pick_behavior@),
    ensures
        final(g)@ == picked(texts(aliases@), old(g)@, pick_behavior@).1,
        match (r, picked(texts(aliases@), old(g)@, pick_behavior@).0) {
            (Ok(alias), Ok(winner)) => alias@ == winner,
            (Err(e), Err(message)) => e.says(ErrorKind::NotFound, message),
            _ => false,
        },
{
    if same_text(pick_behavior, "last") {
        if g.last_alias.as_str().is_empty() {
            return Err(
                Error::new(
                    ErrorKind::NotFound,
                    "no previous session recorded; run agentlb or agentlb new <alias> first",
                ),
            );
        }
        if holds_text(aliases, g.last_alias.as_str()) {
            Ok(g.last_alias.clone())
        } else {
            Err(
                Error::new(
                    ErrorKind::NotFound,
                    "last session no longer exists; run agentlb or agentlb new <alias> first",
                ),
            )
        }
    } else {
        let i: usize = g.round_robin_index % aliases.len();
        let winner = aliases[i].clone();
        g.round_robin_index = (g.round_robin_index + 1) % aliases.len();
        Ok(winner)
    }
}

/// The state after `k` picks, one after the other.
pub open spec fn after_picks(
    aliases: Seq<Seq<char>>,
    g: GlobalStateView,
    pick_behavior: Seq<char>,
    k: nat,
) -> GlobalStateView
    decreases k,
{
    if k == 0 {
        g
    } else {
        picked(
            aliases,
            after_picks(aliases, g, pick_behavior, (k - 1) as nat),
            pick_behavior,
        ).1
    }
}

/// What is picked after `k` picks, one after the other.
pub open spec fn pick_number(
    aliases: Seq<Seq<char>>,
    g: GlobalStateView,
    pick_behavior: Seq<char>,
    k: nat,
) -> Result<Seq<char>, Seq<char>> {
    picked(aliases, after_picks(aliases, g, pick_behavior, k), pick_behavior).0
}

/// In turn, the place moves on by one with each pick.
proof fn picks_move_on(
    aliases: Seq<Seq<char>>,
    g: GlobalStateView,
    pick_behavior: Seq<char>,
    k: nat,
)
    requires
        pick_behavior != "last"@,
        aliases.len() > 0,
        g.round_robin_index >= 0,
    ensures
        pick_number(aliases, g, pick_behavior, k) == Ok::<Seq<char>, Seq<char>>(
            aliases[(g.round_robin_index + k) % aliases.len() as int],
        ),
        after_picks(aliases, g, pick_behavior, k).round_robin_index % aliases.len() as int == (
        g.round_robin_index + k) % aliases.len() as int,
    decreases k,
{
    let n = aliases.len() as int;
    if k > 0 {
        picks_move_on(aliases, g, pick_behavior, (k - 1) as nat);
        let index = g.round_robin_index;
        let before = after_picks(aliases, g, pick_behavior, (k - 1) as nat).round_robin_index;
        lemma_add_mod_noop(before, 1, n);
        lemma_add_mod_noop(index + k - 1, 1, n);
        lemma_mod_twice(before + 1, n);
        assert((before + 1) % n == (index + k) % n);
    }
}

/// Two picks out of as many as there are sessions do not come to the same place.
proof fn places_differ(index: int, n: int, k: nat, m: nat)
    requires
        k < n,
        m < n,
        (index + k) % n == (index + m) % n,
    ensures
        k == m,
{
    lemma_fundamental_div_mod(index + k, n);
    lemma_fundamental_div_mod(index + m, n);
    let p = (index + k) / n;
    let q = (index + m) / n;
    assert(n * p - n * q == n * (p - q)) by (nonlinear_arith);
    if p > q {
        assert(n * (p - q) >= n) by (nonlinear_arith)
            requires
                n > 0,
                p > q,
        ;
    } else if p < q {
        assert(n * (p - q) <= -n) by (nonlinear_arith)
            requires
                n > 0,
                p < q,
        ;
    }
}

/// Whoever begins, picking in turn as often as there are sessions picks each of them, and picks it
/// once: exactly one of those picks gives the session `alias`.
pub proof fn every_session_has_its_turn(
    aliases: Seq<Seq<char>>,
    g: GlobalStateView,
    pick_behavior: Seq<char>,
    alias: Seq<char>,
)
    requires
        pick_behavior != "last"@,
        g.round_robin_index >= 0,
        aliases.no_duplicates(),
        aliases.contains(alias),
    ensures
        exists|k: nat|
            k < aliases.len() && #[trigger] pick_number(aliases, g, pick_behavior, k) == Ok::<
                Seq<char>,
                Seq<char>,
            >(alias),
        forall|k: nat, m: nat|
            k < aliases.len() && m < aliases.len() && #[trigger] pick_number(
                aliases,
                g,
                pick_behavior,
                k,
            ) == Ok::<Seq<char>, Seq<char>>(alias) && #[trigger] pick_number(
                aliases,
                g,
                pick_behavior,
                m,
            ) == Ok::<Seq<char>, Seq<char>>(alias) ==> k == m,
{
    let n = aliases.len() as int;
    let index = g.round_robin_index;
    let j = choose|j: int| 0 <= j < n && aliases[j] == alias;
    let k = ((j - index % n) % n) as nat;
    lemma_mod_bound(j - index % n, n);
    lemma_add_mod_noop(index, k as int, n);
    lemma_mod_twice(j - index % n, n);
    lemma_add_mod_noop(index % n, j - index % n, n);
    lemma_mod_twice(index, n);
    lemma_small_mod(j as nat, n as nat);
    assert((index + k) % n == j);
    picks_move_on(aliases, g, pick_behavior, k);
    assert forall|k: nat, m: nat|
        k < aliases.len() && m < aliases.len() && #[trigger] pick_number(
            aliases,
            g,
            pick_behavior,
            k,
        ) == Ok::<Seq<char>, Seq<char>>(alias) && #[trigger] pick_number(
            aliases,
            g,
            pick_behavior,
            m,
        ) == Ok::<Seq<char>, Seq<char>>(alias) implies k == m by {
        picks_move_on(aliases, g, pick_behavior, k);
        picks_move_on(aliases, g, pick_behavior, m);
        lemma_mod_bound(index + k, n);
        lemma_mod_bound(index + m, n);
        places_differ(index, n, k, m);
    }
}

/// Asked for in turn, a session of the list is always picked, and the next place lies in the
/// list.
pub proof fn a_pick_in_turn_is_a_session(
    aliases: Seq<Seq<char>>,
    g: GlobalStateView,
    pick_behavior: Seq<char>,
)
    requires
        pick_behavior != "last"@,
        aliases.len() > 0,
        g.round_robin_index >= 0,
    ensures
        picked(aliases, g, pick_behavior).0 is Ok,
        aliases.contains(picked(aliases, g, pick_behavior).0->Ok_0),
        0 <= picked(aliases, g, pick_behavior).1.round_robin_index < aliases.len(),
        picked(aliases, g, pick_behavior).1.last_alias == g.last_alias,
{
    let n = aliases.len() as int;
    lemma_mod_bound(g.round_robin_index, n);
    lemma_mod_bound(g.round_robin_index + 1, n);
}

// ---------------------------------------------------------------------------
// New sessions
// ---------------------------------------------------------------------------
/// The alias of the `n`-th session that was named automatically.
pub open spec fn auto_alias(n: nat) -> Seq<char> {
    "auto"@ + decimal(n)
}

/// Whether `alias` is the first of `auto1`, `auto2` and so on that is not among `aliases`.
pub open spec fn first_free(aliases: Seq<Seq<char>>, alias: Seq<char>) -> bool {
    exists|n: nat|
        {
            &&& n >= 1
            &&& alias == #[trigger] auto_alias(n)
            &&& !aliases.contains(alias)
            &&& forall|m: nat| 1 <= m < n ==> aliases.contains(#[trigger] auto_alias(m))
        }
}

/// The first of `auto1`, `auto2` and so on that is not among `aliases`.
pub open spec fn free_alias(aliases: Seq<Seq<char>>) -> Seq<char> {
    choose|alias: Seq<char>| first_free(aliases, alias)
}

/// So many names as are all taken are no more than the names that there are.
proof fn taken_names_are_few(aliases: Seq<Seq<char>>, n: nat)
    requires
        n >= 1,
        forall|m: nat| 1 <= m < n ==> aliases.contains(#[trigger] auto_alias(m)),
    ensures
        n - 1 <= aliases.len(),
{
    let names = Seq::new((n - 1) as nat, |i: int| auto_alias((i + 1) as nat));
    assert forall|i: int, j: int|
        0 <= i < names.len() && 0 <= j < names.len() && i != j implies names[i] != names[j] by {
        if names[i] == names[j] {
            let front = "auto"@.len() as int;
            assert(names[i].skip(front) =~= decimal((i + 1) as nat));
            assert(names[j].skip(front) =~= decimal((j + 1) as nat));
            decimal_is_injective((i + 1) as nat, (j + 1) as nat);
        }
    }
    assert(names.no_duplicates());
    names.unique_seq_to_set();
    aliases.lemma_cardinality_of_set();
    assert(names.to_set().subset_of(aliases.to_set())) by {
        assert forall|name: Seq<char>| names.to_set().contains(name) implies aliases.to_set().contains(
            name,
        ) by {
            let i = choose|i: int| 0 <= i < names.len() && names[i] == name;
            assert(aliases.contains(auto_alias((i + 1) as nat)));
        }
    }
    vstd::set_lib::lemma_len_subset(names.to_set(), aliases.to_set());
}

/// The first of `auto1`, `auto2` and so on that is not among `aliases`.
pub fn next_auto_alias(aliases: &[String]) -> (alias: String)
    requires
        aliases@.len() < usize::MAX,
    ensures
        first_free(texts(aliases@), alias@),
        alias@ == free_alias(texts(aliases@)),
{
    let mut n: u64 = 1;
    loop
        invariant
            1 <= n <= aliases@.len() + 1,
            aliases@.len() < usize::MAX,
            forall|m: nat| 1 <= m < n ==> texts(aliases@).contains(#[trigger] auto_alias(m)),
        decreases aliases@.len() + 1 - n,
    {
        let alias = "auto".to_string().concat(write_decimal(n).as_str());
        if !holds_text(aliases, alias.as_str()) {
            proof {
                assert(alias@ == auto_alias(n as nat));
                assert(first_free(texts(aliases@), alias@));
                one_name_is_first_free(texts(aliases@), alias@, free_alias(texts(aliases@)));
            }
            return alias;
        }
        proof {
            let next = (n + 1) as nat;
            assert forall|m: nat| 1 <= m < next implies texts(aliases@).contains(
                #[trigger] auto_alias(m),
            ) by {
                if m == n {
                    assert(alias@ == auto_alias(m));
                }
            }
            taken_names_are_few(texts(aliases@), next);
        }
        n += 1;
    }
}

/// Of the names for a new session only one is the first that is free.
pub proof fn one_name_is_first_free(aliases: Seq<Seq<char>>, a: Seq<char>, b: Seq<char>)
    requires
        first_free(aliases, a),
        first_free(aliases, b),
    ensures
        a == b,
{
    let m = choose|n: nat|
        {
            &&& n >= 1
            &&& a == #[trigger] auto_alias(n)
            &&& !aliases.contains(a)
            &&& forall|m: nat| 1 <= m < n ==> aliases.contains(#[trigger] auto_alias(m))
        };
    let n = choose|n: nat|
        {
            &&& n >= 1
            &&& b == #[trigger] auto_alias(n)
            &&& !aliases.contains(b)
            &&& forall|m: nat| 1 <= m < n ==> aliases.contains(#[trigger] auto_alias(m))
        };
    if m < n {
        assert(aliases.contains(auto_alias(m)));
    } else if n < m {
        assert(aliases.contains(auto_alias(n)));
    }
}

/// A pick in turn takes the session at the place that was remembered and remembers the next one,
/// which after the last is the first; a place behind the last counts round. What was used last is
/// not touched.
pub proof fn picks_go_round(aliases: Seq<Seq<char>>, g: GlobalStateView, pick_behavior: Seq<char>)
    requires
        pick_behavior != "last"@,
        aliases.len() > 0,
    ensures
        ({
            let (alias, next) = picked(aliases, g, pick_behavior);
            let i = g.round_robin_index;
            &&& 0 <= i < aliases.len() ==> alias == Ok::<Seq<char>, Seq<char>>(aliases[i])
            &&& 0 <= i < aliases.len() - 1 ==> next.round_robin_index == i + 1
            &&& i == aliases.len() - 1 ==> next.round_robin_index == 0
            &&& next.last_alias == g.last_alias
            &&& i >= aliases.len() ==> picked(aliases, g, pick_behavior) == picked(
                aliases,
                GlobalStateView { round_robin_index: i - aliases.len(), ..g },
                pick_behavior,
            )
        }),
{
    let n = aliases.len() as int;
    let i = g.round_robin_index;
    if 0 <= i < n {
        lemma_small_mod(i as nat, n as nat);
        if i + 1 < n {
            lemma_small_mod((i + 1) as nat, n as nat);
        } else {
            vstd::arithmetic::div_mod::lemma_mod_self_0(n);
        }
    }
    if i >= n {
        vstd::arithmetic::div_mod::lemma_mod_sub_multiples_vanish(i, n);
        vstd::arithmetic::div_mod::lemma_mod_sub_multiples_vanish(i + 1, n);
    }
}

/// The last session is picked again, exactly where there was one and it is still there; picking it
/// changes nothing that is remembered.
pub proof fn the_last_session_is_picked_again(aliases: Seq<Seq<char>>, g: GlobalStateView)
    ensures
        picked(aliases, g, "last"@).1 == g,
        picked(aliases, g, "last"@).0 is Ok <==> g.last_alias.len() > 0 && aliases.contains(
            g.last_alias,
        ),
        picked(aliases, g, "last"@).0 is Ok ==> picked(aliases, g, "last"@).0->Ok_0
            == g.last_alias,
        g.last_alias.len() == 0 ==> picked(aliases, g, "last"@).0 == Err::<Seq<char>, Seq<char>>(
            "no previous session recorded; run agentlb or agentlb new <alias> first"@,
        ),
        g.last_alias.len() > 0 && !aliases.contains(g.last_alias) ==> picked(
            aliases,
            g,
            "last"@,
        ).0 == Err::<Seq<char>, Seq<char>>(
            "last session no longer exists; run agentlb or agentlb new <alias> first"@,
        ),
{
}

/// The name for a new session is "auto" with the least number from one on that no session has.
pub proof fn the_least_free_number_is_taken(aliases: Seq<Seq<char>>, n: nat, alias: Seq<char>)
    requires
        n >= 1,
        forall|m: nat| 1 <= m < n ==> aliases.contains(#[trigger] ("auto"@ + decimal(m))),
        !aliases.contains("auto"@ + decimal(n)),
    ensures
        first_free(aliases, alias) <==> alias == "auto"@ + decimal(n),
{
    let own = auto_alias(n);
    assert forall|m: nat| 1 <= m < n implies aliases.contains(#[trigger] auto_alias(m)) by {
        assert(auto_alias(m) == "auto"@ + decimal(m));
    }
    assert(first_free(aliases, own));
    if first_free(aliases, alias) {
        one_name_is_first_free(aliases, alias, own);
    }
}

/// The last session can always be asked for; in turn one can be picked where there is one.
pub proof fn one_of_several_can_be_picked(
    aliases: Seq<Seq<char>>,
    g: GlobalStateView,
    pick_behavior: Seq<char>,
)
    ensures
        pickable(aliases, g, "last"@),
        aliases.len() > 0 && g.round_robin_index < aliases.len() && aliases.len() <= 0xffff_ffff
            ==> pickable(aliases, g, pick_behavior),
        pick_behavior != "last"@ && aliases.len() == 0 ==> !pickable(aliases, g, pick_behavior),
{
}

} // verus!
