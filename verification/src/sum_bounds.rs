//! Sum-range estimation: an empirical plausible interval for a game's total,
//! derived from the sums observed across the historical draws.

use vstd::prelude::*;
use crate::mega_sena::HistoricoMegaSena;
use crate::mega_sena::MegaSena;
use crate::mega_sena::soma_jogo;
use crate::mega_sena::spec_soma;
use crate::mega_sena::valid_store;

verus! {

/// Where the minimum starts before any draw lowers it.
pub const SOMA_MINIMA_INICIAL: i64 = 346;

/// Where the maximum starts before any draw raises it.
pub const SOMA_MAXIMA_INICIAL: i64 = 0;

/// The minimum of `SOMA_MINIMA_INICIAL` and every draw sum of the store.
pub open spec fn spec_soma_minima(store: Seq<HistoricoMegaSena>) -> int
    decreases store.len(),
{
    if store.len() == 0 {
        SOMA_MINIMA_INICIAL as int
    } else {
        let anterior = spec_soma_minima(store.drop_last());
        let soma = spec_soma(store.last().numeros@);
        if soma < anterior {
            soma
        } else {
            anterior
        }
    }
}

/// The maximum of `SOMA_MAXIMA_INICIAL` and every draw sum of the store.
pub open spec fn spec_soma_maxima(store: Seq<HistoricoMegaSena>) -> int
    decreases store.len(),
{
    if store.len() == 0 {
        SOMA_MAXIMA_INICIAL as int
    } else {
        let anterior = spec_soma_maxima(store.drop_last());
        let soma = spec_soma(store.last().numeros@);
        if soma > anterior {
            soma
        } else {
            anterior
        }
    }
}

/// Scans the whole store once and derives the empirical sum interval: the
/// minimum starts at `SOMA_MINIMA_INICIAL` and is only lowered, the maximum
/// starts at `SOMA_MAXIMA_INICIAL` and is only raised.
pub fn compute_sum_bounds(store: &Vec<HistoricoMegaSena>) -> (r: (i64, i64))
    requires
        valid_store(store@),
    ensures
        r.0 == spec_soma_minima(store@),
        r.1 == spec_soma_maxima(store@),
{
    let mut soma_minima: i64 = SOMA_MINIMA_INICIAL;
    let mut soma_maxima: i64 = SOMA_MAXIMA_INICIAL;
    let mut k: usize = 0;
    while k < store.len()
        invariant
            k <= store@.len(),
            valid_store(store@),
            soma_minima == spec_soma_minima(store@.subrange(0, k as int)),
            soma_maxima == spec_soma_maxima(store@.subrange(0, k as int)),
        decreases store@.len() - k,
    {
        proof {
            assert(store@[k as int].wf());
            assert(store@.subrange(0, k + 1).drop_last() =~= store@.subrange(0, k as int));
            assert(store@.subrange(0, k + 1).last() == store@[k as int]);
        }
        let soma = soma_jogo(&store[k].numeros);
        if soma < soma_minima {
            soma_minima = soma;
        }
        if soma > soma_maxima {
            soma_maxima = soma;
        }
        k += 1;
    }
    proof {
        assert(store@.subrange(0, store@.len() as int) =~= store@);
    }
    (soma_minima, soma_maxima)
}

/// The derived bounds sit at or below the baseline and at or above zero,
/// bound every observed draw sum from the proper side, and each is either its
/// initial value or a sum actually observed in the store.
pub proof fn lemma_caracterizacao_dos_limites(store: Seq<HistoricoMegaSena>)
    ensures
        spec_soma_minima(store) <= SOMA_MINIMA_INICIAL,
        spec_soma_maxima(store) >= SOMA_MAXIMA_INICIAL,
        forall|k: int|
            0 <= k < store.len() ==> spec_soma_minima(store) <= spec_soma(
                (#[trigger] store[k]).numeros@,
            ),
        forall|k: int|
            0 <= k < store.len() ==> spec_soma_maxima(store) >= spec_soma(
                (#[trigger] store[k]).numeros@,
            ),
        spec_soma_minima(store) == SOMA_MINIMA_INICIAL || exists|k: int|
            0 <= k < store.len() && spec_soma((#[trigger] store[k]).numeros@) == spec_soma_minima(
                store,
            ),
        spec_soma_maxima(store) == SOMA_MAXIMA_INICIAL || exists|k: int|
            0 <= k < store.len() && spec_soma((#[trigger] store[k]).numeros@) == spec_soma_maxima(
                store,
            ),
    decreases store.len(),
{
    if store.len() > 0 {
        lemma_caracterizacao_dos_limites(store.drop_last());
        assert forall|k: int| 0 <= k < store.len() implies spec_soma_minima(store) <= spec_soma(
            (#[trigger] store[k]).numeros@,
        ) && spec_soma_maxima(store) >= spec_soma(store[k].numeros@) by {
            if k < store.len() - 1 {
                assert(store.drop_last()[k] == store[k]);
            }
        }
        if spec_soma_minima(store) != SOMA_MINIMA_INICIAL {
            if spec_soma_minima(store) == spec_soma(store.last().numeros@) {
                assert(store[store.len() - 1] == store.last());
            } else {
                let k = choose|k: int|
                    0 <= k < store.drop_last().len() && spec_soma(
                        (#[trigger] store.drop_last()[k]).numeros@,
                    ) == spec_soma_minima(store.drop_last());
                assert(store[k] == store.drop_last()[k]);
            }
        }
        if spec_soma_maxima(store) != SOMA_MAXIMA_INICIAL {
            if spec_soma_maxima(store) == spec_soma(store.last().numeros@) {
                assert(store[store.len() - 1] == store.last());
            } else {
                let k = choose|k: int|
                    0 <= k < store.drop_last().len() && spec_soma(
                        (#[trigger] store.drop_last()[k]).numeros@,
                    ) == spec_soma_maxima(store.drop_last());
                assert(store[k] == store.drop_last()[k]);
            }
        }
    }
}

/// The sum-range filter: accepts a game whose total lies strictly between the
/// two bounds. A game summing to exactly either bound is rejected.
pub fn sum_in_range(jogo: &MegaSena, soma_minima: i64, soma_maxima: i64) -> (r: bool)
    requires
        jogo.wf(),
    ensures
        r == (spec_soma(jogo.jogo@) > soma_minima && spec_soma(jogo.jogo@) < soma_maxima),
{
    let soma = soma_jogo(&jogo.jogo);
    soma > soma_minima && soma < soma_maxima
}

/// Law: over an empty history the bounds stay at their initial values, an
/// inverted interval that no game sum whatever can satisfy.
pub proof fn lemma_limites_de_historico_vazio(store: Seq<HistoricoMegaSena>)
    requires
        store.len() == 0,
    ensures
        spec_soma_minima(store) == SOMA_MINIMA_INICIAL,
        spec_soma_maxima(store) == SOMA_MAXIMA_INICIAL,
        spec_soma_maxima(store) < spec_soma_minima(store),
        forall|jogo: MegaSena|
            !(#[trigger] spec_soma(jogo.jogo@) > spec_soma_minima(store) && spec_soma(jogo.jogo@)
                < spec_soma_maxima(store)),
{
}

} // verus!
