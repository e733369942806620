//! Trio analysis, duplicate detection and overlap scoring against the
//! historical draw store.

use vstd::prelude::*;
use vstd::std_specs::cmp::PartialEqSpec;
use vstd::set_lib::lemma_len_subset;
use vstd::set_lib::lemma_subset_equality;
use crate::mega_sena::EngineError;
use crate::mega_sena::HistoricoMegaSena;
use crate::mega_sena::MegaSena;
use crate::mega_sena::valid_store;

verus! {

/// How many trios a six-number game yields: C(6, 3).
pub const QTD_TRIOS: usize = 20;

/// The index triple `(i, j, k)`, `i < j < k`, of the `t`-th trio of a
/// six-number game, in the order the trios are derived (lexicographic over
/// the positions of the game, not over the values).
pub open spec fn trio_indices(t: int) -> (int, int, int) {
    if t == 0 {
        (0int, 1int, 2int)
    } else if t == 1 {
        (0int, 1int, 3int)
    } else if t == 2 {
        (0int, 1int, 4int)
    } else if t == 3 {
        (0int, 1int, 5int)
    } else if t == 4 {
        (0int, 2int, 3int)
    } else if t == 5 {
        (0int, 2int, 4int)
    } else if t == 6 {
        (0int, 2int, 5int)
    } else if t == 7 {
        (0int, 3int, 4int)
    } else if t == 8 {
        (0int, 3int, 5int)
    } else if t == 9 {
        (0int, 4int, 5int)
    } else if t == 10 {
        (1int, 2int, 3int)
    } else if t == 11 {
        (1int, 2int, 4int)
    } else if t == 12 {
        (1int, 2int, 5int)
    } else if t == 13 {
        (1int, 3int, 4int)
    } else if t == 14 {
        (1int, 3int, 5int)
    } else if t == 15 {
        (1int, 4int, 5int)
    } else if t == 16 {
        (2int, 3int, 4int)
    } else if t == 17 {
        (2int, 3int, 5int)
    } else if t == 18 {
        (2int, 4int, 5int)
    } else {
        (3int, 4int, 5int)
    }
}

/// The values of the `t`-th trio of a game, in the game's own order.
pub open spec fn trio_at(jogo: Seq<i64>, t: int) -> Seq<i64> {
    seq![jogo[trio_indices(t).0], jogo[trio_indices(t).1], jogo[trio_indices(t).2]]
}

/// The position of the index triple `(a, b, c)` in the derivation order.
pub open spec fn trio_rank(a: int, b: int, c: int) -> int {
    if a == 0 && b == 1 && c == 2 {
        0int
    } else if a == 0 && b == 1 && c == 3 {
        1int
    } else if a == 0 && b == 1 && c == 4 {
        2int
    } else if a == 0 && b == 1 && c == 5 {
        3int
    } else if a == 0 && b == 2 && c == 3 {
        4int
    } else if a == 0 && b == 2 && c == 4 {
        5int
    } else if a == 0 && b == 2 && c == 5 {
        6int
    } else if a == 0 && b == 3 && c == 4 {
        7int
    } else if a == 0 && b == 3 && c == 5 {
        8int
    } else if a == 0 && b == 4 && c == 5 {
        9int
    } else if a == 1 && b == 2 && c == 3 {
        10int
    } else if a == 1 && b == 2 && c == 4 {
        11int
    } else if a == 1 && b == 2 && c == 5 {
        12int
    } else if a == 1 && b == 3 && c == 4 {
        13int
    } else if a == 1 && b == 3 && c == 5 {
        14int
    } else if a == 1 && b == 4 && c == 5 {
        15int
    } else if a == 2 && b == 3 && c == 4 {
        16int
    } else if a == 2 && b == 3 && c == 5 {
        17int
    } else if a == 2 && b == 4 && c == 5 {
        18int
    } else {
        19int
    }
}

/// Every derived index triple is strictly increasing and within a six-number
/// game, and the derivation enumerates each admissible triple exactly once.
pub proof fn lemma_trio_indices_enumeracao()
    ensures
        forall|t: int|
            0 <= t < QTD_TRIOS ==> {
                let (a, b, c) = #[trigger] trio_indices(t);
                0 <= a < b < c < 6
            },
        forall|a: int, b: int, c: int|
            0 <= a < b < c < 6 ==> {
                let t = #[trigger] trio_rank(a, b, c);
                0 <= t < QTD_TRIOS && trio_indices(t) == (a, b, c)
            },
        forall|s: int, t: int|
            0 <= s < t < QTD_TRIOS ==> #[trigger] trio_indices(s) != #[trigger] trio_indices(t),
{
}

/// Derives all C(6, 3) = 20 trios of a six-number game, each trio keeping the
/// relative order of the chosen positions. A game of any other length is
/// rejected with `InvalidInput`.
pub fn generate_trios(game: &Vec<i64>) -> (r: Result<Vec<[i64; 3]>, EngineError>)
    ensures
        r is Ok <==> game@.len() == 6,
        game@.len() != 6 ==> r == Result::<Vec<[i64; 3]>, EngineError>::Err(
            EngineError::InvalidInput,
        ),
        r matches Ok(trios) ==> trios@.len() == QTD_TRIOS && forall|t: int|
            0 <= t < QTD_TRIOS ==> (#[trigger] trios@[t])@ == trio_at(game@, t),
{
    if game.len() != 6 {
        return Err(EngineError::InvalidInput);
    }
    let mut trios: Vec<[i64; 3]> = Vec::new();
    trios.push([game[0], game[1], game[2]]);
    trios.push([game[0], game[1], game[3]]);
    trios.push([game[0], game[1], game[4]]);
    trios.push([game[0], game[1], game[5]]);
    trios.push([game[0], game[2], game[3]]);
    trios.push([game[0], game[2], game[4]]);
    trios.push([game[0], game[2], game[5]]);
    trios.push([game[0], game[3], game[4]]);
    trios.push([game[0], game[3], game[5]]);
    trios.push([game[0], game[4], game[5]]);
    trios.push([game[1], game[2], game[3]]);
    trios.push([game[1], game[2], game[4]]);
    trios.push([game[1], game[2], game[5]]);
    trios.push([game[1], game[3], game[4]]);
    trios.push([game[1], game[3], game[5]]);
    trios.push([game[1], game[4], game[5]]);
    trios.push([game[2], game[3], game[4]]);
    trios.push([game[2], game[3], game[5]]);
    trios.push([game[2], game[4], game[5]]);
    trios.push([game[3], game[4], game[5]]);
    proof {
        assert forall|t: int| 0 <= t < QTD_TRIOS implies (#[trigger] trios@[t])@ == trio_at(
            game@,
            t,
        ) by {
            assert(trios@[t]@ =~= trio_at(game@, t));
        }
    }
    Ok(trios)
}

/// How many positions of `s` hold a value that also occurs in `alvo`. For a
/// duplicate-free `s` this is the size of the set intersection
/// (`lemma_count_shared_eh_intersecao`).
pub open spec fn spec_count_shared(s: Seq<i64>, alvo: Seq<i64>) -> int
    decreases s.len(),
{
    if s.len() == 0 {
        0
    } else {
        spec_count_shared(s.drop_last(), alvo) + if alvo.contains(s.last()) {
            1int
        } else {
            0int
        }
    }
}

/// On a duplicate-free sequence the positional match count is exactly the
/// cardinality of the intersection of the two value sets.
pub proof fn lemma_count_shared_eh_intersecao(s: Seq<i64>, alvo: Seq<i64>)
    requires
        s.no_duplicates(),
    ensures
        spec_count_shared(s, alvo) == s.to_set().intersect(alvo.to_set()).len(),
    decreases s.len(),
{
    broadcast use vstd::set::group_set_axioms;
    broadcast use vstd::seq_lib::group_seq_properties;
    broadcast use vstd::seq_lib::seq_to_set_is_finite;

    if s.len() == 0 {
        assert(s.to_set().intersect(alvo.to_set()) =~= Set::empty());
    } else {
        let rest = s.drop_last();
        let x = s.last();
        assert(rest.no_duplicates());
        lemma_count_shared_eh_intersecao(rest, alvo);
        assert(s.to_set() =~= rest.to_set().insert(x));
        assert(!rest.to_set().contains(x));
        lemma_len_subset(rest.to_set().intersect(alvo.to_set()), rest.to_set());
        if alvo.contains(x) {
            assert(s.to_set().intersect(alvo.to_set()) =~= rest.to_set().intersect(
                alvo.to_set(),
            ).insert(x));
        } else {
            assert(s.to_set().intersect(alvo.to_set()) =~= rest.to_set().intersect(alvo.to_set()));
        }
    }
}

/// A trio's value set is contained in a draw's value set.
pub open spec fn spec_trio_contido(trio: Seq<i64>, numeros: Seq<i64>) -> bool {
    trio.to_set().subset_of(numeros.to_set())
}

/// On a duplicate-free draw, a duplicate-free trio is fully contained exactly
/// when at least three of the draw's numbers match trio values — the counting
/// criterion the store query uses.
pub proof fn lemma_contagem_detecta_trio(numeros: Seq<i64>, trio: Seq<i64>)
    requires
        numeros.no_duplicates(),
        trio.no_duplicates(),
        trio.len() == 3,
    ensures
        spec_count_shared(numeros, trio) >= 3 <==> spec_trio_contido(trio, numeros),
{
    broadcast use vstd::set::group_set_axioms;
    broadcast use vstd::seq_lib::seq_to_set_is_finite;

    lemma_count_shared_eh_intersecao(numeros, trio);
    trio.unique_seq_to_set();
    let inter = numeros.to_set().intersect(trio.to_set());
    lemma_len_subset(inter, trio.to_set());
    if spec_count_shared(numeros, trio) >= 3 {
        lemma_subset_equality(inter, trio.to_set());
        assert forall|i: int| 0 <= i < trio.len() implies numeros.to_set().contains(
            #[trigger] trio[i],
        ) by {
            assert(trio.to_set().contains(trio[i]));
            assert(inter.contains(trio[i]));
        }
        assert(trio.to_set().subset_of(numeros.to_set()));
    }
    if spec_trio_contido(trio, numeros) {
        assert(inter =~= trio.to_set());
    }
}

/// The draw store holds some draw whose numbers contain at least three
/// matches with the given trio.
pub open spec fn spec_trio_no_historico(trio: Seq<i64>, store: Seq<HistoricoMegaSena>) -> bool {
    exists|k: int|
        0 <= k < store.len() && spec_count_shared((#[trigger] store[k]).numeros@, trio) >= 3
}

/// Some trio of the game is fully contained in the number set of a single
/// historical draw.
pub open spec fn spec_has_repeated_trio(jogo: Seq<i64>, store: Seq<HistoricoMegaSena>) -> bool {
    exists|t: int, k: int|
        0 <= t < QTD_TRIOS && 0 <= k < store.len() && #[trigger] spec_trio_contido(
            trio_at(jogo, t),
            store[k].numeros@,
        )
}

/// The value `x` occurs among `numeros`.
fn contem(numeros: &Vec<i64>, x: i64) -> (r: bool)
    ensures
        r == numeros@.contains(x),
{
    let mut i: usize = 0;
    while i < numeros.len()
        invariant
            i <= numeros@.len(),
            forall|k: int| 0 <= k < i ==> numeros@[k] != x,
        decreases numeros@.len() - i,
    {
        if numeros[i] == x {
            return true;
        }
        i += 1;
    }
    false
}

/// Counts how many of the draw's numbers occur in the trio.
fn conta_bolas_no_trio(numeros: &Vec<i64>, trio: &[i64; 3]) -> (r: usize)
    ensures
        r == spec_count_shared(numeros@, trio@),
        r <= numeros@.len(),
{
    let mut cont: usize = 0;
    let mut i: usize = 0;
    while i < numeros.len()
        invariant
            i <= numeros@.len(),
            cont == spec_count_shared(numeros@.subrange(0, i as int), trio@),
            cont <= i,
        decreases numeros@.len() - i,
    {
        proof {
            assert(numeros@.subrange(0, i + 1).drop_last() =~= numeros@.subrange(0, i as int));
            assert(numeros@.subrange(0, i + 1).last() == numeros@[i as int]);
        }
        let x = numeros[i];
        if x == trio[0] || x == trio[1] || x == trio[2] {
            proof {
                assert(trio@.contains(numeros@[i as int]));
            }
            cont += 1;
        } else {
            proof {
                assert forall|k: int| 0 <= k < trio@.len() implies trio@[k] != numeros@[i as int] by {
                }
                assert(!trio@.contains(numeros@[i as int]));
            }
        }
        i += 1;
    }
    proof {
        assert(numeros@.subrange(0, numeros@.len() as int) =~= numeros@);
    }
    cont
}

/// Checks whether any of the given trios occurred together in a single past
/// draw: a draw counts as containing a trio when at least three of its
/// numbers match trio values. Short-circuits on the first occurrence.
pub fn has_repeated_trio_by_sets(store: &Vec<HistoricoMegaSena>, trios: &Vec<[i64; 3]>) -> (r:
    bool)
    ensures
        r == exists|t: int|
            0 <= t < trios@.len() && spec_trio_no_historico((#[trigger] trios@[t])@, store@),
{
    let mut t: usize = 0;
    while t < trios.len()
        invariant
            t <= trios@.len(),
            forall|t2: int| 0 <= t2 < t ==> !spec_trio_no_historico((#[trigger] trios@[t2])@, store@),
        decreases trios@.len() - t,
    {
        let mut k: usize = 0;
        while k < store.len()
            invariant
                t < trios@.len(),
                k <= store@.len(),
                forall|k2: int|
                    0 <= k2 < k ==> spec_count_shared((#[trigger] store@[k2]).numeros@, trios@[t as int]@) < 3,
            decreases store@.len() - k,
        {
            if conta_bolas_no_trio(&store[k].numeros, &trios[t]) >= 3 {
                return true;
            }
            k += 1;
        }
        t += 1;
    }
    false
}

/// The trio values taken at three distinct positions of a duplicate-free game
/// are themselves pairwise distinct.
proof fn lemma_trio_at_sem_duplicatas(jogo: Seq<i64>, t: int)
    requires
        jogo.len() == 6,
        jogo.no_duplicates(),
        0 <= t < QTD_TRIOS,
    ensures
        trio_at(jogo, t).no_duplicates(),
        trio_at(jogo, t).len() == 3,
{
    lemma_trio_indices_enumeracao();
    let (a, b, c) = trio_indices(t);
    assert(trio_at(jogo, t)[0] == jogo[a]);
    assert(trio_at(jogo, t)[1] == jogo[b]);
    assert(trio_at(jogo, t)[2] == jogo[c]);
}

/// Tests whether any trio of the game already came out together in a single
/// past draw. A game that does not hold exactly six numbers is rejected with
/// `InvalidInput`.
pub fn has_repeated_trio(store: &Vec<HistoricoMegaSena>, jogo: &MegaSena) -> (r: Result<
    bool,
    EngineError,
>)
    requires
        valid_store(store@),
    ensures
        r is Ok <==> jogo.jogo@.len() == 6,
        jogo.wf() ==> r == Result::<bool, EngineError>::Ok(
            spec_has_repeated_trio(jogo.jogo@, store@),
        ),
{
    let trios = match generate_trios(&jogo.jogo) {
        Ok(trios) => trios,
        Err(e) => {
            return Err(e);
        },
    };
    let encontrado = has_repeated_trio_by_sets(store, &trios);
    proof {
        if jogo.wf() {
            assert forall|t: int, k: int|
                0 <= t < QTD_TRIOS && 0 <= k < store@.len() implies (#[trigger] spec_count_shared(
                store@[k].numeros@,
                trio_at(jogo.jogo@, t),
            ) >= 3 <==> spec_trio_contido(trio_at(jogo.jogo@, t), store@[k].numeros@)) by {
                lemma_trio_at_sem_duplicatas(jogo.jogo@, t);
                assert(store@[k].wf());
                lemma_contagem_detecta_trio(store@[k].numeros@, trio_at(jogo.jogo@, t));
            }
            if encontrado {
                let t = choose|t: int|
                    0 <= t < trios@.len() && spec_trio_no_historico((#[trigger] trios@[t])@, store@);
                let k = choose|k: int|
                    0 <= k < store@.len() && spec_count_shared(
                        (#[trigger] store@[k]).numeros@,
                        trios@[t]@,
                    ) >= 3;
                assert(spec_trio_contido(trio_at(jogo.jogo@, t), store@[k].numeros@));
                assert(spec_has_repeated_trio(jogo.jogo@, store@));
            }
            if spec_has_repeated_trio(jogo.jogo@, store@) {
                let (t, k) = choose|t: int, k: int|
                    0 <= t < QTD_TRIOS && 0 <= k < store@.len() && #[trigger] spec_trio_contido(
                        trio_at(jogo.jogo@, t),
                        store@[k].numeros@,
                    );
                assert(spec_count_shared(store@[k].numeros@, trios@[t]@) >= 3);
                assert(spec_trio_no_historico(trios@[t]@, store@));
            }
        }
    }
    Ok(encontrado)
}

/// The game's numbers coincide, position by position, with some draw of the
/// store — the game already came out in the past.
pub fn game_already_exists(store: &Vec<HistoricoMegaSena>, jogo: &MegaSena) -> (r: bool)
    ensures
        r == exists|k: int| 0 <= k < store@.len() && (#[trigger] store@[k]).numeros@ == jogo.jogo@,
{
    let mut k: usize = 0;
    while k < store.len()
        invariant
            k <= store@.len(),
            forall|k2: int| 0 <= k2 < k ==> (#[trigger] store@[k2]).numeros@ != jogo.jogo@,
        decreases store@.len() - k,
    {
        if store[k].numeros == jogo.jogo {
            proof {
                assert(store@[k as int].numeros@ =~= jogo.jogo@);
            }
            return true;
        }
        proof {
            if store@[k as int].numeros@ == jogo.jogo@ {
                assert(store@[k as int].numeros.eq_spec(&jogo.jogo));
            }
        }
        k += 1;
    }
    false
}

/// Counts how many numbers the candidate game shares with a single
/// historical draw (set-intersection size once both are duplicate-free).
pub fn overlap_count(jogo: &MegaSena, h: &HistoricoMegaSena) -> (r: usize)
    ensures
        r == spec_count_shared(jogo.jogo@, h.numeros@),
        r <= jogo.jogo@.len(),
{
    let mut cont: usize = 0;
    let mut i: usize = 0;
    while i < jogo.jogo.len()
        invariant
            i <= jogo.jogo@.len(),
            cont == spec_count_shared(jogo.jogo@.subrange(0, i as int), h.numeros@),
            cont <= i,
        decreases jogo.jogo@.len() - i,
    {
        proof {
            assert(jogo.jogo@.subrange(0, i + 1).drop_last() =~= jogo.jogo@.subrange(0, i as int));
            assert(jogo.jogo@.subrange(0, i + 1).last() == jogo.jogo@[i as int]);
        }
        if contem(&h.numeros, jogo.jogo[i]) {
            cont += 1;
        }
        i += 1;
    }
    proof {
        assert(jogo.jogo@.subrange(0, jogo.jogo@.len() as int) =~= jogo.jogo@);
    }
    cont
}

/// Some draw of the store shares at least `tolerancia` numbers with the game.
pub open spec fn spec_excede_tolerancia(
    jogo: Seq<i64>,
    store: Seq<HistoricoMegaSena>,
    tolerancia: int,
) -> bool {
    exists|k: int|
        0 <= k < store.len() && spec_count_shared(jogo, (#[trigger] store[k]).numeros@)
            >= tolerancia
}

/// Scans the store in its natural order and reports the first draw that
/// shares at least `tolerancia` numbers with the candidate, for diagnostic
/// reporting; `None` when no draw reaches the threshold.
pub fn find_conflicting_draw(store: &Vec<HistoricoMegaSena>, jogo: &MegaSena, tolerancia: u8) -> (r:
    Option<usize>)
    ensures
        r matches Some(k) ==> k < store@.len() && spec_count_shared(
            jogo.jogo@,
            store@[k as int].numeros@,
        ) >= tolerancia && forall|k2: int|
            0 <= k2 < k ==> spec_count_shared(jogo.jogo@, (#[trigger] store@[k2]).numeros@)
                < tolerancia,
        r is None <==> !spec_excede_tolerancia(jogo.jogo@, store@, tolerancia as int),
{
    let mut k: usize = 0;
    while k < store.len()
        invariant
            k <= store@.len(),
            forall|k2: int|
                0 <= k2 < k ==> spec_count_shared(jogo.jogo@, (#[trigger] store@[k2]).numeros@)
                    < tolerancia,
        decreases store@.len() - k,
    {
        if overlap_count(jogo, &store[k]) >= tolerancia as usize {
            return Some(k);
        }
        k += 1;
    }
    None
}

/// The overlap heuristic: true exactly when some historical draw shares at
/// least `tolerancia` numbers with the candidate game.
pub fn exceeds_tolerance(store: &Vec<HistoricoMegaSena>, jogo: &MegaSena, tolerancia: u8) -> (r:
    bool)
    ensures
        r == spec_excede_tolerancia(jogo.jogo@, store@, tolerancia as int),
        jogo.wf() ==> r == exists|k: int|
            0 <= k < store@.len() && jogo.jogo@.to_set().intersect(
                (#[trigger] store@[k]).numeros@.to_set(),
            ).len() >= tolerancia,
{
    let r = find_conflicting_draw(store, jogo, tolerancia).is_some();
    proof {
        if jogo.wf() {
            assert forall|k: int| 0 <= k < store@.len() implies spec_count_shared(
                jogo.jogo@,
                (#[trigger] store@[k]).numeros@,
            ) == jogo.jogo@.to_set().intersect(store@[k].numeros@.to_set()).len() by {
                lemma_count_shared_eh_intersecao(jogo.jogo@, store@[k].numeros@);
            }
        }
    }
    r
}

/// Law: the trios derived from a game of six pairwise-distinct numbers are
/// twenty three-element subsets of the game's number set, pairwise distinct
/// as unordered sets.
pub proof fn lemma_trios_unicos(jogo: Seq<i64>, trios: Seq<Seq<i64>>)
    requires
        jogo.len() == 6,
        jogo.no_duplicates(),
        trios.len() == QTD_TRIOS,
        forall|t: int| 0 <= t < QTD_TRIOS ==> #[trigger] trios[t] == trio_at(jogo, t),
    ensures
        forall|t: int|
            0 <= t < QTD_TRIOS ==> (#[trigger] trios[t]).to_set().len() == 3
                && trios[t].to_set().subset_of(jogo.to_set()),
        forall|s: int, t: int|
            0 <= s < t < QTD_TRIOS ==> (#[trigger] trios[s]).to_set() != (#[trigger] trios[t]).to_set(),
{
    broadcast use vstd::set::group_set_axioms;
    broadcast use vstd::seq_lib::seq_to_set_is_finite;

    lemma_trio_indices_enumeracao();
    assert forall|t: int| 0 <= t < QTD_TRIOS implies (#[trigger] trios[t]).to_set().len() == 3
        && trios[t].to_set().subset_of(jogo.to_set()) by {
        lemma_trio_at_sem_duplicatas(jogo, t);
        trios[t].unique_seq_to_set();
        let (a, b, c) = trio_indices(t);
        assert forall|x: i64| trios[t].to_set().contains(x) implies jogo.to_set().contains(x) by {
            assert(trios[t].contains(x));
            let i = choose|i: int| 0 <= i < trios[t].len() && trios[t][i] == x;
            assert(x == jogo[a] || x == jogo[b] || x == jogo[c]);
            assert(jogo.contains(x));
        }
    }
    assert forall|s: int, t: int|
        0 <= s < t < QTD_TRIOS implies (#[trigger] trios[s]).to_set() != (#[trigger] trios[t]).to_set() by {
        let (a, b, c) = trio_indices(s);
        let (d, e, f) = trio_indices(t);
        if trios[s].to_set() == trios[t].to_set() {
            assert(trios[s][0] == jogo[a] && trios[s][1] == jogo[b] && trios[s][2] == jogo[c]);
            assert(trios[s].to_set().contains(jogo[a]) && trios[s].to_set().contains(jogo[b])
                && trios[s].to_set().contains(jogo[c])) by {
                assert(trios[s].contains(jogo[a]) && trios[s].contains(jogo[b])
                    && trios[s].contains(jogo[c]));
            }
            lemma_valor_determina_indice(jogo, trios[t], d, e, f, a);
            lemma_valor_determina_indice(jogo, trios[t], d, e, f, b);
            lemma_valor_determina_indice(jogo, trios[t], d, e, f, c);
            assert(a == d && b == e && c == f);
            assert(false);
        }
    }
}

/// In a duplicate-free game, a value found among three chosen positions can
/// only come from one of those positions.
proof fn lemma_valor_determina_indice(
    jogo: Seq<i64>,
    trio: Seq<i64>,
    d: int,
    e: int,
    f: int,
    x: int,
)
    requires
        jogo.len() == 6,
        jogo.no_duplicates(),
        0 <= x < 6,
        0 <= d < 6,
        0 <= e < 6,
        0 <= f < 6,
        trio.len() == 3,
        trio[0] == jogo[d],
        trio[1] == jogo[e],
        trio[2] == jogo[f],
        trio.to_set().contains(jogo[x]),
    ensures
        x == d || x == e || x == f,
{
    broadcast use vstd::set::group_set_axioms;

    assert(trio.contains(jogo[x]));
    let i = choose|i: int| 0 <= i < trio.len() && trio[i] == jogo[x];
    assert(jogo[x] == jogo[d] || jogo[x] == jogo[e] || jogo[x] == jogo[f]);
}

} // verus!
