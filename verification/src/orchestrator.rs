//! The generate-and-filter control loop: draws candidates until the quota of
//! accepted games is met, then post-filters the accepted games by the
//! empirical sum range.

use vstd::prelude::*;
use rand::rngs::StdRng;
use crate::analyser::find_conflicting_draw;
use crate::analyser::spec_count_shared;
use crate::analyser::spec_excede_tolerancia;
use crate::game_generator::generate_mega_sena;
use crate::mega_sena::EngineError;
use crate::mega_sena::HistoricoMegaSena;
use crate::mega_sena::MegaSena;
use crate::mega_sena::spec_soma;
use crate::mega_sena::valid_store;
use crate::sum_bounds::compute_sum_bounds;
use crate::sum_bounds::spec_soma_maxima;
use crate::sum_bounds::spec_soma_minima;
use crate::sum_bounds::sum_in_range;

verus! {

/// A candidate turned away by the overlap heuristic, with the first
/// historical draw that justified the rejection.
#[derive(Debug, Clone, PartialEq, Eq)]
pub struct Rejeicao {
    /// The rejected candidate.
    pub jogo: MegaSena,
    /// Index into the store of the first draw sharing too many numbers.
    pub indice_concurso: usize,
}

/// What one full run of the pipeline produced.
pub struct RunOutcome {
    /// The games accepted during generation, as the sum filter saw them.
    pub aceitos: Ghost<Seq<MegaSena>>,
    /// Candidates turned away by the overlap heuristic, with their reasons.
    pub rejeitados: Vec<Rejeicao>,
    /// Lower sum bound derived from history.
    pub soma_minima: i64,
    /// Upper sum bound derived from history.
    pub soma_maxima: i64,
    /// The accepted games whose sum lies strictly inside the bounds.
    pub jogaveis: Vec<MegaSena>,
}

/// A rejection record is sound: it points at a draw of the store, that draw
/// shares at least `tolerancia` numbers with the rejected game, and it is the
/// first draw of the store that does.
pub open spec fn rejeicao_valida(
    r: Rejeicao,
    store: Seq<HistoricoMegaSena>,
    tolerancia: int,
) -> bool {
    &&& r.jogo.wf()
    &&& r.indice_concurso < store.len()
    &&& spec_count_shared(r.jogo.jogo@, store[r.indice_concurso as int].numeros@) >= tolerancia
    &&& forall|k: int|
        0 <= k < r.indice_concurso ==> spec_count_shared(
            r.jogo.jogo@,
            (#[trigger] store[k]).numeros@,
        ) < tolerancia
}

/// The sum-range acceptance predicate, as the post-filter applies it.
pub open spec fn filtro_soma(soma_minima: int, soma_maxima: int) -> spec_fn(MegaSena) -> bool {
    |jogo: MegaSena| spec_soma(jogo.jogo@) > soma_minima && spec_soma(jogo.jogo@) < soma_maxima
}

/// Generation stage: draws fresh candidates and evaluates each against the
/// overlap heuristic, looping until exactly `quota` candidates have been
/// accepted. Rejected candidates are reported with their offending draw and
/// do not consume the quota. Acceptance is never guaranteed on any single
/// draw, so an unbounded loop could spin forever; `max_tentativas` caps the
/// number of candidates examined, and the accounting clause below says the
/// cap was the only thing that could leave the quota unmet.
pub fn run_generation(
    store: &Vec<HistoricoMegaSena>,
    quota: u8,
    tolerancia: u8,
    max_tentativas: usize,
    rng: &mut StdRng,
) -> (r: Result<(Vec<MegaSena>, Vec<Rejeicao>), EngineError>)
    requires
        valid_store(store@),
    ensures
        r is Ok,
        r matches Ok(par) ==> {
            &&& par.0@.len() <= quota as int
            &&& par.0@.len() == quota as int || par.0@.len() + par.1@.len()
                == max_tentativas as int
            &&& forall|i: int|
                0 <= i < par.0@.len() ==> (#[trigger] par.0@[i]).wf() && !spec_excede_tolerancia(
                    par.0@[i].jogo@,
                    store@,
                    tolerancia as int,
                )
            &&& forall|i: int|
                0 <= i < par.1@.len() ==> rejeicao_valida(
                    #[trigger] par.1@[i],
                    store@,
                    tolerancia as int,
                )
        },
{
    let mut aceitos: Vec<MegaSena> = Vec::new();
    let mut rejeitados: Vec<Rejeicao> = Vec::new();
    let mut restantes: u8 = quota;
    let mut tentativas: usize = 0;
    while restantes > 0 && tentativas < max_tentativas
        invariant
            valid_store(store@),
            aceitos@.len() + restantes == quota,
            aceitos@.len() + rejeitados@.len() == tentativas,
            tentativas <= max_tentativas,
            forall|i: int|
                0 <= i < aceitos@.len() ==> (#[trigger] aceitos@[i]).wf()
                    && !spec_excede_tolerancia(aceitos@[i].jogo@, store@, tolerancia as int),
            forall|i: int|
                0 <= i < rejeitados@.len() ==> rejeicao_valida(
                    #[trigger] rejeitados@[i],
                    store@,
                    tolerancia as int,
                ),
        decreases max_tentativas - tentativas,
    {
        tentativas += 1;
        let jogo = match generate_mega_sena(rng) {
            Ok(jogo) => jogo,
            Err(e) => {
                return Err(e);
            },
        };
        match find_conflicting_draw(store, &jogo, tolerancia) {
            Some(indice) => {
                rejeitados.push(Rejeicao { jogo, indice_concurso: indice });
            },
            None => {
                aceitos.push(jogo);
                restantes -= 1;
            },
        }
    }
    Ok((aceitos, rejeitados))
}

/// Post-filter stage: keeps, in order, the games whose sum lies strictly
/// inside the empirical bounds.
pub fn filter_by_sum(jogos: Vec<MegaSena>, soma_minima: i64, soma_maxima: i64) -> (r: Vec<
    MegaSena,
>)
    requires
        forall|i: int| 0 <= i < jogos@.len() ==> (#[trigger] jogos@[i]).wf(),
    ensures
        r@ == jogos@.filter(filtro_soma(soma_minima as int, soma_maxima as int)),
{
    broadcast use vstd::seq::Seq::filter_distributes_over_add;

    let ghost original = jogos@;
    let pred = Ghost(filtro_soma(soma_minima as int, soma_maxima as int));
    let mut restantes = jogos;
    let mut jogaveis: Vec<MegaSena> = Vec::new();
    let ghost mut consumidos: int = 0;
    proof {
        assert(original.subrange(0, 0).filter(pred@) =~= Seq::<MegaSena>::empty()) by {
            reveal(Seq::filter);
        }
    }
    while restantes.len() > 0
        invariant
            0 <= consumidos <= original.len(),
            restantes@ == original.subrange(consumidos, original.len() as int),
            jogaveis@ == original.subrange(0, consumidos).filter(pred@),
            pred@ == filtro_soma(soma_minima as int, soma_maxima as int),
            forall|i: int| 0 <= i < original.len() ==> (#[trigger] original[i]).wf(),
        decreases restantes@.len(),
    {
        let jogo = restantes.remove(0);
        proof {
            assert(jogo == original[consumidos]);
            assert(restantes@ =~= original.subrange(consumidos + 1, original.len() as int));
            assert(original.subrange(0, consumidos + 1) =~= original.subrange(0, consumidos)
                + seq![jogo]);
            assert(seq![jogo].filter(pred@) =~= if pred@(jogo) {
                seq![jogo]
            } else {
                Seq::<MegaSena>::empty()
            }) by {
                reveal_with_fuel(Seq::filter, 2);
                assert(seq![jogo].drop_last() =~= Seq::<MegaSena>::empty());
            }
        }
        if sum_in_range(&jogo, soma_minima, soma_maxima) {
            jogaveis.push(jogo);
            proof {
                assert(jogaveis@ =~= original.subrange(0, consumidos + 1).filter(pred@));
            }
        } else {
            proof {
                assert(jogaveis@ =~= original.subrange(0, consumidos + 1).filter(pred@));
            }
        }
        proof {
            consumidos = consumidos + 1;
        }
    }
    proof {
        assert(original.subrange(0, original.len() as int) =~= original);
    }
    jogaveis
}

/// One full run: generate until the quota of accepted games is met (or the
/// attempt cap is hit), derive the sum bounds from the whole store, then
/// shrink the accepted list to the games whose sum falls strictly inside the
/// bounds. The quota counts accepted games, not playable ones: the sum filter
/// may shrink the final list below the quota, with no backfill.
pub fn run_pipeline(
    store: &Vec<HistoricoMegaSena>,
    quota: u8,
    tolerancia: u8,
    max_tentativas: usize,
    rng: &mut StdRng,
) -> (r: Result<RunOutcome, EngineError>)
    requires
        valid_store(store@),
    ensures
        r is Ok,
        r matches Ok(o) ==> {
            &&& o.aceitos@.len() <= quota as int
            &&& o.aceitos@.len() == quota as int || o.aceitos@.len() + o.rejeitados@.len()
                == max_tentativas as int
            &&& forall|i: int|
                0 <= i < o.aceitos@.len() ==> (#[trigger] o.aceitos@[i]).wf()
                    && !spec_excede_tolerancia(o.aceitos@[i].jogo@, store@, tolerancia as int)
            &&& o.soma_minima == spec_soma_minima(store@)
            &&& o.soma_maxima == spec_soma_maxima(store@)
            &&& o.jogaveis@ == o.aceitos@.filter(
                filtro_soma(o.soma_minima as int, o.soma_maxima as int),
            )
            &&& forall|i: int|
                0 <= i < o.jogaveis@.len() ==> (#[trigger] o.jogaveis@[i]).wf()
                    && !spec_excede_tolerancia(o.jogaveis@[i].jogo@, store@, tolerancia as int)
                    && spec_soma(o.jogaveis@[i].jogo@) > o.soma_minima && spec_soma(
                    o.jogaveis@[i].jogo@,
                ) < o.soma_maxima
            &&& forall|i: int|
                0 <= i < o.rejeitados@.len() ==> rejeicao_valida(
                    #[trigger] o.rejeitados@[i],
                    store@,
                    tolerancia as int,
                )
        },
{
    broadcast use vstd::seq::Seq::lemma_filter_pred;
    broadcast use vstd::seq::Seq::lemma_filter_contains_rev;

    let (aceitos, rejeitados) = match run_generation(store, quota, tolerancia, max_tentativas, rng) {
        Ok(par) => par,
        Err(e) => {
            return Err(e);
        },
    };
    let ghost aceitos_antes = aceitos@;
    let (soma_minima, soma_maxima) = compute_sum_bounds(store);
    let jogaveis = filter_by_sum(aceitos, soma_minima, soma_maxima);
    proof {
        let pred = filtro_soma(soma_minima as int, soma_maxima as int);
        assert forall|i: int| 0 <= i < jogaveis@.len() implies (#[trigger] jogaveis@[i]).wf()
            && !spec_excede_tolerancia(jogaveis@[i].jogo@, store@, tolerancia as int) && spec_soma(
            jogaveis@[i].jogo@,
        ) > soma_minima && spec_soma(jogaveis@[i].jogo@) < soma_maxima by {
            assert(pred(jogaveis@[i]));
            assert(aceitos_antes.contains(jogaveis@[i])) by {
                assert(aceitos_antes.filter(pred).contains(aceitos_antes.filter(pred)[i]));
            }
            let k = choose|k: int|
                0 <= k < aceitos_antes.len() && aceitos_antes[k] == jogaveis@[i];
        }
    }
    Ok(
        RunOutcome {
            aceitos: Ghost(aceitos_antes),
            rejeitados,
            soma_minima,
            soma_maxima,
            jogaveis,
        },
    )
}

} // verus!
