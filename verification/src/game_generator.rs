//! Random candidate generation: six distinct numbers drawn without
//! replacement from the number universe.

use vstd::prelude::*;
use rand::rngs::StdRng;
use crate::mega_sena::BOLAS_POR_JOGO;
use crate::mega_sena::EngineError;
use crate::mega_sena::MAIOR_BOLA;
use crate::mega_sena::MENOR_BOLA;
use crate::mega_sena::MegaSena;

verus! {

/// The random number generator the engine draws from. Seeded by the caller:
/// from entropy in production, from a fixed seed for reproducible runs.
#[verifier::external_type_specification]
#[verifier::external_body]
pub struct ExStdRng(StdRng);

/// Relies on rand::Rng::gen_range over `0..n`: returns a uniformly drawn
/// number below `n`, and panics only when the range is empty.
#[verifier::external_body]
fn sorteia_abaixo(rng: &mut StdRng, n: usize) -> (r: usize)
    requires
        n >= 1,
    ensures
        r < n,
{
    rand::Rng::gen_range(rng, 0..n)
}

/// Draws a game of six distinct numbers, without replacement, from the
/// universe `[MENOR_BOLA, maior]`. Fails with `GenerationError` exactly when
/// that universe is too small to fill a game — a configuration error.
pub fn generate_mega_sena_com_universo(rng: &mut StdRng, maior: i64) -> (r: Result<
    MegaSena,
    EngineError,
>)
    requires
        0 <= maior <= MAIOR_BOLA,
    ensures
        r is Ok <==> maior - MENOR_BOLA + 1 >= BOLAS_POR_JOGO,
        maior - MENOR_BOLA + 1 < BOLAS_POR_JOGO ==> r == Result::<MegaSena, EngineError>::Err(
            EngineError::GenerationError,
        ),
        r matches Ok(jogo) ==> jogo.wf() && forall|i: int|
            0 <= i < jogo.jogo@.len() ==> MENOR_BOLA <= #[trigger] jogo.jogo@[i] <= maior,
{
    if maior - MENOR_BOLA + 1 < BOLAS_POR_JOGO as i64 {
        return Err(EngineError::GenerationError);
    }
    let mut pool: Vec<i64> = Vec::new();
    let mut v: i64 = MENOR_BOLA;
    while v <= maior
        invariant
            MENOR_BOLA <= v <= maior + 1,
            maior <= MAIOR_BOLA,
            pool@.len() == v - MENOR_BOLA,
            forall|i: int| 0 <= i < pool@.len() ==> #[trigger] pool@[i] == MENOR_BOLA + i,
        decreases maior + 1 - v,
    {
        pool.push(v);
        v += 1;
    }
    let mut jogo: Vec<i64> = Vec::new();
    let mut k: usize = 0;
    while k < BOLAS_POR_JOGO
        invariant
            k <= BOLAS_POR_JOGO,
            jogo@.len() == k,
            pool@.len() == maior - MENOR_BOLA + 1 - k,
            maior - MENOR_BOLA + 1 >= BOLAS_POR_JOGO,
            forall|i: int| 0 <= i < pool@.len() ==> MENOR_BOLA <= #[trigger] pool@[i] <= maior,
            forall|i: int| 0 <= i < jogo@.len() ==> MENOR_BOLA <= #[trigger] jogo@[i] <= maior,
            pool@.no_duplicates(),
            jogo@.no_duplicates(),
            forall|i: int, j: int|
                0 <= i < jogo@.len() && 0 <= j < pool@.len() ==> #[trigger] jogo@[i]
                    != #[trigger] pool@[j],
        decreases BOLAS_POR_JOGO - k,
    {
        let idx = sorteia_abaixo(rng, pool.len());
        let bola = pool.swap_remove(idx);
        jogo.push(bola);
        k += 1;
    }
    Ok(MegaSena { id: 0, jogo })
}

/// Draws a fresh candidate game from the full Mega-Sena universe
/// `[MENOR_BOLA, MAIOR_BOLA]`. That universe always holds six numbers, so the
/// draw always succeeds.
pub fn generate_mega_sena(rng: &mut StdRng) -> (r: Result<MegaSena, EngineError>)
    ensures
        r is Ok,
        r matches Ok(jogo) ==> jogo.wf(),
{
    generate_mega_sena_com_universo(rng, MAIOR_BOLA)
}

} // verus!
