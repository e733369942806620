//! Data model: generated games, historical draws, and their validity.

use vstd::prelude::*;

verus! {

/// Smallest number of the Mega-Sena universe.
pub const MENOR_BOLA: i64 = 1;

/// Largest number of the Mega-Sena universe.
pub const MAIOR_BOLA: i64 = 60;

/// How many numbers a game holds.
pub const BOLAS_POR_JOGO: usize = 6;

/// Errors of the engine.
#[derive(Debug, Clone, Copy, PartialEq, Eq, Structural)]
pub enum EngineError {
    /// A game handed to the trio analyser did not hold exactly six numbers.
    InvalidInput,
    /// The number universe is too small to draw six distinct numbers from.
    GenerationError,
}

/// A Mega-Sena game: six numbers, kept in the order they were produced.
#[derive(Debug, Clone, PartialEq, Eq)]
pub struct MegaSena {
    pub id: i64,
    pub jogo: Vec<i64>,
}

/// A past draw as loaded from the historical store.
#[derive(Debug, Clone, PartialEq, Eq)]
pub struct HistoricoMegaSena {
    /// Contest identifier, assigned externally.
    pub concurso: i64,
    /// Calendar date of the draw; opaque to the engine.
    pub data: String,
    /// The six numbers drawn.
    pub numeros: Vec<i64>,
}

/// A sequence of numbers forms a valid game: exactly six pairwise-distinct
/// numbers, each within the universe `[MENOR_BOLA, MAIOR_BOLA]`.
pub open spec fn valid_jogo(s: Seq<i64>) -> bool {
    &&& s.len() == BOLAS_POR_JOGO
    &&& s.no_duplicates()
    &&& forall|i: int| 0 <= i < s.len() ==> MENOR_BOLA <= #[trigger] s[i] <= MAIOR_BOLA
}

impl MegaSena {
    /// The game is well formed.
    pub open spec fn wf(self) -> bool {
        valid_jogo(self.jogo@)
    }
}

impl HistoricoMegaSena {
    /// The draw is well formed. The loader that populates the store is
    /// expected to enforce this at ingestion time.
    pub open spec fn wf(self) -> bool {
        valid_jogo(self.numeros@)
    }
}

/// Every draw of the store is well formed.
pub open spec fn valid_store(store: Seq<HistoricoMegaSena>) -> bool {
    forall|k: int| 0 <= k < store.len() ==> (#[trigger] store[k]).wf()
}

/// Sum of a sequence of numbers.
pub open spec fn spec_soma(s: Seq<i64>) -> int
    decreases s.len(),
{
    if s.len() == 0 {
        0
    } else {
        spec_soma(s.drop_last()) + s.last()
    }
}

/// Defensive re-validation at the store's load boundary: checks the
/// well-formedness invariant that the ingestion collaborator must uphold.
pub fn validar_jogo(numeros: &Vec<i64>) -> (r: bool)
    ensures
        r == valid_jogo(numeros@),
{
    if numeros.len() != BOLAS_POR_JOGO {
        return false;
    }
    let mut i: usize = 0;
    while i < numeros.len()
        invariant
            i <= numeros.len(),
            forall|a: int| 0 <= a < i ==> MENOR_BOLA <= #[trigger] numeros@[a] <= MAIOR_BOLA,
            forall|a: int, b: int| 0 <= a < b < i ==> numeros@[a] != numeros@[b],
        decreases numeros.len() - i,
    {
        if numeros[i] < MENOR_BOLA || numeros[i] > MAIOR_BOLA {
            return false;
        }
        let mut j: usize = 0;
        while j < i
            invariant
                j <= i < numeros.len(),
                forall|b: int| 0 <= b < j ==> numeros@[b] != numeros@[i as int],
            decreases i - j,
        {
            if numeros[j] == numeros[i] {
                return false;
            }
            j += 1;
        }
        i += 1;
    }
    true
}

/// Sum of a game's numbers, as the presentation layer annotates it and the
/// sum-range filter consumes it.
pub fn soma_jogo(numeros: &Vec<i64>) -> (r: i64)
    requires
        numeros@.len() <= BOLAS_POR_JOGO,
        forall|i: int| 0 <= i < numeros@.len() ==> MENOR_BOLA <= #[trigger] numeros@[i] <= MAIOR_BOLA,
    ensures
        r == spec_soma(numeros@),
        0 <= r <= BOLAS_POR_JOGO * MAIOR_BOLA,
{
    let mut soma: i64 = 0;
    let mut i: usize = 0;
    while i < numeros.len()
        invariant
            i <= numeros.len(),
            numeros@.len() <= BOLAS_POR_JOGO,
            forall|k: int| 0 <= k < numeros@.len() ==> MENOR_BOLA <= #[trigger] numeros@[k] <= MAIOR_BOLA,
            soma == spec_soma(numeros@.subrange(0, i as int)),
            0 <= soma <= i * MAIOR_BOLA,
        decreases numeros.len() - i,
    {
        proof {
            assert(numeros@.subrange(0, i + 1).drop_last() =~= numeros@.subrange(0, i as int));
        }
        soma = soma + numeros[i];
        i += 1;
    }
    proof {
        assert(numeros@.subrange(0, numeros@.len() as int) =~= numeros@);
    }
    soma
}

} // verus!
