//! Cleaning of raw delimited-text fields before ingestion: surrounding
//! whitespace and quote characters are stripped, in the same order the
//! ingestion routines apply — whitespace, single quotes, double quotes,
//! whitespace again. Reading the file and splitting records stay with the
//! caller.

use vstd::prelude::*;

verus! {

/// ASCII whitespace as the field cleaner strips it.
pub open spec fn eh_branco(b: u8) -> bool {
    b == 0x20 || b == 0x09 || b == 0x0a || b == 0x0d
}

/// `s` with every leading whitespace byte removed.
pub open spec fn sem_prefixo_branco(s: Seq<u8>) -> Seq<u8>
    decreases s.len(),
{
    if s.len() > 0 && eh_branco(s.first()) {
        sem_prefixo_branco(s.drop_first())
    } else {
        s
    }
}

/// `s` with every trailing whitespace byte removed.
pub open spec fn sem_sufixo_branco(s: Seq<u8>) -> Seq<u8>
    decreases s.len(),
{
    if s.len() > 0 && eh_branco(s.last()) {
        sem_sufixo_branco(s.drop_last())
    } else {
        s
    }
}

/// `s` with every leading `alvo` byte removed.
pub open spec fn sem_prefixo_byte(s: Seq<u8>, alvo: u8) -> Seq<u8>
    decreases s.len(),
{
    if s.len() > 0 && s.first() == alvo {
        sem_prefixo_byte(s.drop_first(), alvo)
    } else {
        s
    }
}

/// `s` with every trailing `alvo` byte removed.
pub open spec fn sem_sufixo_byte(s: Seq<u8>, alvo: u8) -> Seq<u8>
    decreases s.len(),
{
    if s.len() > 0 && s.last() == alvo {
        sem_sufixo_byte(s.drop_last(), alvo)
    } else {
        s
    }
}

/// `s` with surrounding whitespace removed.
pub open spec fn aparado_branco(s: Seq<u8>) -> Seq<u8> {
    sem_sufixo_branco(sem_prefixo_branco(s))
}

/// `s` with surrounding `alvo` bytes removed.
pub open spec fn aparado_byte(s: Seq<u8>, alvo: u8) -> Seq<u8> {
    sem_sufixo_byte(sem_prefixo_byte(s, alvo), alvo)
}

/// A raw field after cleaning: whitespace, then single quotes, then double
/// quotes, then whitespace once more, each stripped from both ends.
pub open spec fn campo_limpo(s: Seq<u8>) -> Seq<u8> {
    aparado_branco(aparado_byte(aparado_byte(aparado_branco(s), 0x27), 0x22))
}

/// Strips surrounding `alvo` bytes.
fn apara_byte_exec(campo: &Vec<u8>, alvo: u8) -> (r: Vec<u8>)
    ensures
        r@ == aparado_byte(campo@, alvo),
{
    let mut lo: usize = 0;
    let mut hi: usize = campo.len();
    proof {
        assert(campo@.subrange(0, campo@.len() as int) =~= campo@);
    }
    while lo < hi && campo[lo] == alvo
        invariant
            0 <= lo <= hi <= campo@.len(),
            sem_prefixo_byte(campo@, alvo) == sem_prefixo_byte(
                campo@.subrange(lo as int, hi as int),
                alvo,
            ),
            hi == campo@.len(),
        decreases hi - lo,
    {
        proof {
            assert(campo@.subrange(lo as int, hi as int).drop_first() =~= campo@.subrange(
                lo + 1,
                hi as int,
            ));
        }
        lo += 1;
    }
    proof {
        assert(sem_prefixo_byte(campo@.subrange(lo as int, hi as int), alvo) == campo@.subrange(
            lo as int,
            hi as int,
        ));
    }
    while lo < hi && campo[hi - 1] == alvo
        invariant
            0 <= lo <= hi <= campo@.len(),
            aparado_byte(campo@, alvo) == sem_sufixo_byte(
                campo@.subrange(lo as int, hi as int),
                alvo,
            ),
        decreases hi - lo,
    {
        proof {
            assert(campo@.subrange(lo as int, hi as int).drop_last() =~= campo@.subrange(
                lo as int,
                hi - 1,
            ));
        }
        hi -= 1;
    }
    let mut r: Vec<u8> = Vec::new();
    let mut i: usize = lo;
    while i < hi
        invariant
            lo <= i <= hi <= campo@.len(),
            r@ =~= campo@.subrange(lo as int, i as int),
        decreases hi - i,
    {
        r.push(campo[i]);
        i += 1;
    }
    proof {
        assert(aparado_byte(campo@, alvo) == campo@.subrange(lo as int, hi as int));
    }
    r
}

/// Strips surrounding whitespace.
fn apara_branco_exec(campo: &Vec<u8>) -> (r: Vec<u8>)
    ensures
        r@ == aparado_branco(campo@),
{
    let mut lo: usize = 0;
    let mut hi: usize = campo.len();
    proof {
        assert(campo@.subrange(0, campo@.len() as int) =~= campo@);
    }
    while lo < hi && (campo[lo] == 0x20 || campo[lo] == 0x09 || campo[lo] == 0x0a || campo[lo]
        == 0x0d)
        invariant
            0 <= lo <= hi <= campo@.len(),
            sem_prefixo_branco(campo@) == sem_prefixo_branco(
                campo@.subrange(lo as int, hi as int),
            ),
            hi == campo@.len(),
        decreases hi - lo,
    {
        proof {
            assert(campo@.subrange(lo as int, hi as int).drop_first() =~= campo@.subrange(
                lo + 1,
                hi as int,
            ));
        }
        lo += 1;
    }
    proof {
        assert(sem_prefixo_branco(campo@.subrange(lo as int, hi as int)) == campo@.subrange(
            lo as int,
            hi as int,
        ));
    }
    while lo < hi && (campo[hi - 1] == 0x20 || campo[hi - 1] == 0x09 || campo[hi - 1] == 0x0a
        || campo[hi - 1] == 0x0d)
        invariant
            0 <= lo <= hi <= campo@.len(),
            aparado_branco(campo@) == sem_sufixo_branco(campo@.subrange(lo as int, hi as int)),
        decreases hi - lo,
    {
        proof {
            assert(campo@.subrange(lo as int, hi as int).drop_last() =~= campo@.subrange(
                lo as int,
                hi - 1,
            ));
        }
        hi -= 1;
    }
    let mut r: Vec<u8> = Vec::new();
    let mut i: usize = lo;
    while i < hi
        invariant
            lo <= i <= hi <= campo@.len(),
            r@ =~= campo@.subrange(lo as int, i as int),
        decreases hi - i,
    {
        r.push(campo[i]);
        i += 1;
    }
    proof {
        assert(aparado_branco(campo@) == campo@.subrange(lo as int, hi as int));
    }
    r
}

/// Cleans one raw field: surrounding whitespace, then single quotes, then
/// double quotes, then whitespace once more.
pub fn limpar_campo(campo: &Vec<u8>) -> (r: Vec<u8>)
    ensures
        r@ == campo_limpo(campo@),
{
    let passo1 = apara_branco_exec(campo);
    let passo2 = apara_byte_exec(&passo1, 0x27);
    let passo3 = apara_byte_exec(&passo2, 0x22);
    apara_branco_exec(&passo3)
}

} // verus!
