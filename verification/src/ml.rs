//! Deterministic text embeddings by feature hashing.
//!
//! The text is split on Unicode whitespace; every piece loses its leading and
//! trailing non-alphanumeric characters, and each non-empty word is lower-cased and
//! hashed with 64-bit FNV-1a. The word adds `±1` to coordinate `hash % dimensions`
//! (the sign is bit 32 of the hash), and each window of three bytes of the word adds
//! `±0.5` the same way. This module computes those additions, in the order in which
//! they are applied; summing them up and scaling to unit length is floating-point
//! work, done by the caller.
use vstd::prelude::*;
use vstd::string::*;
use vstd::utf8::*;

verus! {

/// Seed of 64-bit FNV-1a.
pub const FNV_OFFSET: u64 = 0xcbf29ce484222325;

/// Multiplier of 64-bit FNV-1a.
pub const FNV_PRIME: u64 = 0x100000001b3;

/// Whether `char::is_whitespace` holds of `c` (the Unicode `White_Space` property).
pub uninterp spec fn e_espaco(c: char) -> bool;

/// Whether `char::is_alphanumeric` holds of `c` (Unicode `Alphabetic` or `Numeric`).
pub uninterp spec fn e_alfanumerico(c: char) -> bool;

/// What `str::to_lowercase` makes of the characters `s`.
pub uninterp spec fn minusculas(s: Seq<char>) -> Seq<char>;

/// `char::is_whitespace`: true exactly for the characters with the Unicode
/// `White_Space` property, a fixed property of the character.
pub assume_specification[ char::is_whitespace ](c: char) -> (r: bool)
    ensures
        r == e_espaco(c),
;

/// `char::is_alphanumeric`: true exactly for the characters with the Unicode
/// `Alphabetic` or `Numeric` property, a fixed property of the character.
pub assume_specification[ char::is_alphanumeric ](c: char) -> (r: bool)
    ensures
        r == e_alfanumerico(c),
;

/// `str::to_lowercase`: the lowercase mapping of the string, which depends on the
/// string alone.
pub assume_specification[ str::to_lowercase ](s: &str) -> (r: String)
    ensures
        r@ == minusculas(s@),
;

/// One addition to the embedding: `meios` halves (`±2` for a word, `±1` for a
/// three-byte window) added to coordinate `indice`.
#[derive(Clone, Copy, Debug, PartialEq, Eq, Structural)]
pub struct Contribuicao {
    pub indice: usize,
    pub meios: i8,
}

/// One FNV-1a step: xor the byte in, multiply by the prime modulo `2^64`.
pub open spec fn fnv_passo(h: u64, b: u8) -> u64 {
    (h ^ (b as u64)).wrapping_mul(FNV_PRIME)
}

/// FNV-1a of `b` from the state `h`.
pub open spec fn fnv_de(h: u64, b: Seq<u8>) -> u64
    decreases b.len(),
{
    if b.len() == 0 {
        h
    } else {
        fnv_passo(fnv_de(h, b.drop_last()), b.last())
    }
}

/// 64-bit FNV-1a hash of `b`.
pub open spec fn fnv1a(b: Seq<u8>) -> u64 {
    fnv_de(FNV_OFFSET, b)
}

/// The addition that hash `h` makes with weight `peso` (in halves): to coordinate
/// `h % dimensoes`, positive when bit 32 of `h` is clear.
pub open spec fn contribuicao_de(h: u64, peso: i8, dimensoes: usize) -> Contribuicao {
    Contribuicao {
        indice: ((h as usize) % dimensoes) as usize,
        meios: if (h >> 32u64) & 1 == 0 { peso } else { (-peso) as i8 },
    }
}

/// The additions of the three-byte windows of `b`, from the first to the last.
pub open spec fn contribuicoes_trigramas(b: Seq<u8>, dimensoes: usize) -> Seq<Contribuicao> {
    if b.len() >= 3 {
        Seq::new((b.len() - 2) as nat, |k: int| contribuicao_de(fnv1a(b.subrange(k, k + 3)), 1, dimensoes))
    } else {
        Seq::empty()
    }
}

/// The additions of a word already in lowercase: the word itself, then its
/// three-byte windows, all over its UTF-8 bytes.
pub open spec fn contribuicoes_minuscula(w: Seq<char>, dimensoes: usize) -> Seq<Contribuicao> {
    let b = encode_utf8(w);
    seq![contribuicao_de(fnv1a(b), 2, dimensoes)] + contribuicoes_trigramas(b, dimensoes)
}

/// The additions of one word: those of its lowercase form.
pub open spec fn contribuicoes_palavra(w: Seq<char>, dimensoes: usize) -> Seq<Contribuicao> {
    contribuicoes_minuscula(minusculas(w), dimensoes)
}

/// `t` without its leading non-alphanumeric characters.
pub open spec fn aparar_inicio(t: Seq<char>) -> Seq<char>
    decreases t.len(),
{
    if t.len() > 0 && !e_alfanumerico(t[0]) {
        aparar_inicio(t.drop_first())
    } else {
        t
    }
}

/// `t` without its trailing non-alphanumeric characters.
pub open spec fn aparar_fim(t: Seq<char>) -> Seq<char>
    decreases t.len(),
{
    if t.len() > 0 && !e_alfanumerico(t.last()) {
        aparar_fim(t.drop_last())
    } else {
        t
    }
}

/// `t` trimmed of non-alphanumeric characters at both ends.
pub open spec fn aparar(t: Seq<char>) -> Seq<char> {
    aparar_fim(aparar_inicio(t))
}

/// The additions that a whitespace-separated piece `t` makes: none when nothing is
/// left of it after trimming, else those of the trimmed word.
pub open spec fn contribuicoes_peca(t: Seq<char>, dimensoes: usize) -> Seq<Contribuicao> {
    if aparar(t).len() == 0 {
        Seq::empty()
    } else {
        contribuicoes_palavra(aparar(t), dimensoes)
    }
}

/// The pieces of `s` between whitespace, as a scan from the left: the pieces already
/// closed, and the piece being read.
pub open spec fn pecas_ate(s: Seq<char>) -> (Seq<Seq<char>>, Seq<char>)
    decreases s.len(),
{
    if s.len() == 0 {
        (Seq::empty(), Seq::empty())
    } else {
        let (fechadas, atual) = pecas_ate(s.drop_last());
        if e_espaco(s.last()) {
            if atual.len() > 0 {
                (fechadas.push(atual), Seq::empty())
            } else {
                (fechadas, atual)
            }
        } else {
            (fechadas, atual.push(s.last()))
        }
    }
}

/// The maximal runs of non-whitespace characters of `s`, in order (what
/// `str::split_whitespace` yields).
pub open spec fn pecas(s: Seq<char>) -> Seq<Seq<char>> {
    let (fechadas, atual) = pecas_ate(s);
    if atual.len() > 0 {
        fechadas.push(atual)
    } else {
        fechadas
    }
}

/// The additions of the pieces `ps`, piece after piece.
pub open spec fn contribuicoes_pecas(ps: Seq<Seq<char>>, dimensoes: usize) -> Seq<Contribuicao>
    decreases ps.len(),
{
    if ps.len() == 0 {
        Seq::empty()
    } else {
        contribuicoes_pecas(ps.drop_last(), dimensoes) + contribuicoes_peca(ps.last(), dimensoes)
    }
}

/// All additions that the embedding of `s` with `dimensoes` coordinates is made of,
/// in order; none when there are no coordinates.
pub open spec fn contribuicoes_texto(s: Seq<char>, dimensoes: usize) -> Seq<Contribuicao> {
    if dimensoes == 0 {
        Seq::empty()
    } else {
        contribuicoes_pecas(pecas(s), dimensoes)
    }
}

/// The words of the pieces `ps`, in order: each piece trimmed and lower-cased, the
/// pieces with nothing left after trimming dropped.
pub open spec fn palavras(ps: Seq<Seq<char>>) -> Seq<Seq<char>>
    decreases ps.len(),
{
    if ps.len() == 0 {
        Seq::empty()
    } else if aparar(ps.last()).len() == 0 {
        palavras(ps.drop_last())
    } else {
        palavras(ps.drop_last()).push(minusculas(aparar(ps.last())))
    }
}

/// The words of the text `s` that its embedding is made of, in order.
pub open spec fn palavras_do_texto(s: Seq<char>) -> Seq<Seq<char>> {
    palavras(pecas(s))
}

/// The additions of the lowercase words `ws`, word after word.
pub open spec fn contribuicoes_de_palavras(ws: Seq<Seq<char>>, dimensoes: usize) -> Seq<Contribuicao>
    decreases ws.len(),
{
    if ws.len() == 0 {
        Seq::empty()
    } else {
        contribuicoes_de_palavras(ws.drop_last(), dimensoes) + contribuicoes_minuscula(ws.last(), dimensoes)
    }
}

proof fn lema_pecas_e_palavras(ps: Seq<Seq<char>>, d: usize)
    ensures
        contribuicoes_pecas(ps, d) == contribuicoes_de_palavras(palavras(ps), d),
    decreases ps.len(),
{
    if ps.len() > 0 {
        lema_pecas_e_palavras(ps.drop_last(), d);
        let anteriores = palavras(ps.drop_last());
        if aparar(ps.last()).len() == 0 {
            assert(contribuicoes_pecas(ps, d) =~= contribuicoes_pecas(ps.drop_last(), d));
        } else {
            assert(anteriores.push(minusculas(aparar(ps.last()))).drop_last() =~= anteriores);
        }
    }
}

proof fn lema_palavras_concat(a: Seq<Seq<char>>, b: Seq<Seq<char>>, d: usize)
    ensures
        contribuicoes_de_palavras(a + b, d) == contribuicoes_de_palavras(a, d) + contribuicoes_de_palavras(b, d),
    decreases b.len(),
{
    if b.len() == 0 {
        assert(a + b =~= a);
        assert(contribuicoes_de_palavras(a, d) + contribuicoes_de_palavras(b, d) =~= contribuicoes_de_palavras(a, d));
    } else {
        lema_palavras_concat(a, b.drop_last(), d);
        assert((a + b).drop_last() =~= a + b.drop_last());
        assert((a + b).last() == b.last());
        assert(contribuicoes_de_palavras(a + b, d) =~= contribuicoes_de_palavras(a, d)
            + contribuicoes_de_palavras(b, d));
    }
}

proof fn lema_resto_mesmo_multiconjunto(resto1: Seq<Seq<char>>, w: Seq<char>, ws2: Seq<Seq<char>>, i: int)
    requires
        resto1.push(w).to_multiset() == ws2.to_multiset(),
        0 <= i < ws2.len(),
        ws2[i] == w,
    ensures
        resto1.to_multiset() == ws2.remove(i).to_multiset(),
{
    vstd::seq_lib::to_multiset_build(resto1, w);
    vstd::seq_lib::to_multiset_remove(ws2, i);
    broadcast use vstd::multiset::group_multiset_axioms;

    assert(resto1.to_multiset() =~= ws2.remove(i).to_multiset());
}

proof fn lema_tres_partes(r: Seq<Contribuicao>, cp: Seq<Contribuicao>, cw: Seq<Contribuicao>, cq: Seq<Contribuicao>)
    requires
        r.to_multiset() == (cp + cq).to_multiset(),
    ensures
        (r + cw).to_multiset() == (cp + cw + cq).to_multiset(),
{
    vstd::seq_lib::lemma_multiset_commutative(r, cw);
    vstd::seq_lib::lemma_multiset_commutative(cp, cq);
    vstd::seq_lib::lemma_multiset_commutative(cp + cw, cq);
    vstd::seq_lib::lemma_multiset_commutative(cp, cw);
    broadcast use vstd::multiset::group_multiset_axioms;

    assert((r + cw).to_multiset() =~= (cp + cw + cq).to_multiset());
}

proof fn lema_palavras_permutadas(ws1: Seq<Seq<char>>, ws2: Seq<Seq<char>>, d: usize)
    requires
        ws1.to_multiset() == ws2.to_multiset(),
    ensures
        contribuicoes_de_palavras(ws1, d).to_multiset() == contribuicoes_de_palavras(ws2, d).to_multiset(),
    decreases ws1.len(),
{
    if ws1.len() == 0 {
        vstd::seq_lib::to_multiset_len(ws1);
        vstd::seq_lib::to_multiset_len(ws2);
        assert(ws1 =~= ws2);
    } else {
        let w = ws1.last();
        let resto1 = ws1.drop_last();
        assert(ws1 =~= resto1.push(w));
        assert(ws2.contains(w)) by {
            vstd::seq_lib::to_multiset_contains(ws1, w);
            vstd::seq_lib::to_multiset_contains(ws2, w);
            assert(ws1[ws1.len() - 1] == w);
        }
        let i = choose|i: int| 0 <= i < ws2.len() && ws2[i] == w;
        let p = ws2.subrange(0, i);
        let q = ws2.subrange(i + 1, ws2.len() as int);
        let resto2 = ws2.remove(i);
        assert(resto2 =~= p + q);
        assert(ws2 =~= p + seq![w] + q);
        lema_resto_mesmo_multiconjunto(resto1, w, ws2, i);
        lema_palavras_permutadas(resto1, resto2, d);
        assert(contribuicoes_de_palavras(seq![w], d) =~= contribuicoes_minuscula(w, d)) by {
            let vazia = Seq::<Seq<char>>::empty();
            assert(seq![w].drop_last() =~= vazia);
            assert(seq![w].last() == w);
            assert(contribuicoes_de_palavras(vazia, d) =~= Seq::<Contribuicao>::empty());
            assert(Seq::<Contribuicao>::empty() + contribuicoes_minuscula(w, d) =~= contribuicoes_minuscula(w, d));
        }
        lema_palavras_concat(p, seq![w], d);
        lema_palavras_concat(p + seq![w], q, d);
        lema_palavras_concat(p, q, d);
        let cp = contribuicoes_de_palavras(p, d);
        let cq = contribuicoes_de_palavras(q, d);
        let cw = contribuicoes_minuscula(w, d);
        assert(contribuicoes_de_palavras(ws1, d) == contribuicoes_de_palavras(resto1, d) + cw);
        assert(contribuicoes_de_palavras(ws2, d) == cp + cw + cq);
        assert(contribuicoes_de_palavras(resto2, d) == cp + cq);
        lema_tres_partes(contribuicoes_de_palavras(resto1, d), cp, cw, cq);
    }
}

/// The additions of the embedding depend only on the words of the text, in order:
/// two texts whose pieces trim and lower-case to the same words get the very same
/// additions, whatever their letter case, the punctuation at the ends of their
/// words, and their spacing.
pub proof fn lei_embedding_mesmas_palavras(s1: Seq<char>, s2: Seq<char>, dimensoes: usize)
    requires
        palavras_do_texto(s1) == palavras_do_texto(s2),
    ensures
        contribuicoes_texto(s1, dimensoes) == contribuicoes_texto(s2, dimensoes),
{
    lema_pecas_e_palavras(pecas(s1), dimensoes);
    lema_pecas_e_palavras(pecas(s2), dimensoes);
}

/// Word order does not matter either: two texts with the same words, each as often,
/// in any order, get the same additions, each as often, so the sums (the embedding
/// before scaling) are the same.
pub proof fn lei_embedding_ignora_ordem(s1: Seq<char>, s2: Seq<char>, dimensoes: usize)
    requires
        palavras_do_texto(s1).to_multiset() == palavras_do_texto(s2).to_multiset(),
    ensures
        contribuicoes_texto(s1, dimensoes).to_multiset() == contribuicoes_texto(s2, dimensoes).to_multiset(),
{
    lema_pecas_e_palavras(pecas(s1), dimensoes);
    lema_pecas_e_palavras(pecas(s2), dimensoes);
    lema_palavras_permutadas(palavras_do_texto(s1), palavras_do_texto(s2), dimensoes);
}

proof fn lema_pecas_concat(a: Seq<Seq<char>>, b: Seq<char>, d: usize)
    ensures
        contribuicoes_pecas(a.push(b), d) == contribuicoes_pecas(a, d) + contribuicoes_peca(b, d),
{
    assert(a.push(b).drop_last() =~= a);
}

/// FNV-1a of `b`.
fn hash_fnv1a(b: &[u8]) -> (r: u64)
    ensures
        r == fnv1a(b@),
{
    let mut h: u64 = FNV_OFFSET;
    let mut i: usize = 0;
    while i < b.len()
        invariant
            i <= b.len(),
            h == fnv_de(FNV_OFFSET, b@.subrange(0, i as int)),
        decreases b.len() - i,
    {
        proof {
            assert(b@.subrange(0, i + 1).drop_last() =~= b@.subrange(0, i as int));
        }
        h = (h ^ (b[i] as u64)).wrapping_mul(FNV_PRIME);
        i = i + 1;
    }
    proof {
        assert(b@.subrange(0, b@.len() as int) =~= b@);
    }
    h
}

/// The addition that hash `h` makes with weight `peso`.
fn contribuicao(h: u64, peso: i8, dimensoes: usize) -> (r: Contribuicao)
    requires
        dimensoes > 0,
        peso == 1 || peso == 2,
    ensures
        r == contribuicao_de(h, peso, dimensoes),
{
    let meios = if (h >> 32u64) & 1 == 0 { peso } else { -peso };
    Contribuicao { indice: (h as usize) % dimensoes, meios }
}

/// Appends the additions of the word `w` (non-empty, already trimmed) to `saida`.
fn contribuir_palavra(w: &[char], dimensoes: usize, saida: &mut Vec<Contribuicao>)
    requires
        dimensoes > 0,
    ensures
        final(saida)@ == old(saida)@ + contribuicoes_palavra(w@, dimensoes),
{
    let mut palavra = String::new();
    let mut i: usize = 0;
    while i < w.len()
        invariant
            i <= w.len(),
            palavra@ == w@.subrange(0, i as int),
        decreases w.len() - i,
    {
        palavra.push(w[i]);
        i = i + 1;
        proof {
            assert(palavra@ =~= w@.subrange(0, i as int));
        }
    }
    proof {
        assert(w@.subrange(0, w@.len() as int) =~= w@);
    }
    let minuscula = palavra.as_str().to_lowercase();
    let b = minuscula.as_str().as_bytes();
    let ghost inicio = saida@;
    saida.push(contribuicao(hash_fnv1a(b), 2, dimensoes));
    if b.len() >= 3 {
        let n = b.len() - 2;
        let mut k: usize = 0;
        while k < n
            invariant
                n == b@.len() - 2,
                n + 2 == b.len(),
                k <= n,
                dimensoes > 0,
                saida@ == inicio + seq![contribuicao_de(fnv1a(b@), 2, dimensoes)]
                    + contribuicoes_trigramas(b@, dimensoes).subrange(0, k as int),
            decreases n - k,
        {
            let janela = &b[k..k + 3];
            saida.push(contribuicao(hash_fnv1a(janela), 1, dimensoes));
            k = k + 1;
            proof {
                assert(contribuicoes_trigramas(b@, dimensoes).subrange(0, k as int)
                    =~= contribuicoes_trigramas(b@, dimensoes).subrange(0, k - 1).push(
                    contribuicao_de(fnv1a(b@.subrange(k - 1, k + 2)), 1, dimensoes)));
            }
        }
        proof {
            assert(contribuicoes_trigramas(b@, dimensoes).subrange(0, k as int)
                =~= contribuicoes_trigramas(b@, dimensoes));
        }
    } else {
        proof {
            assert(contribuicoes_trigramas(b@, dimensoes) =~= Seq::<Contribuicao>::empty());
        }
    }
    proof {
        assert(saida@ =~= inicio + contribuicoes_palavra(w@, dimensoes));
    }
}

proof fn lema_aparar_inicio_passo(t: Seq<char>, i: int)
    requires
        0 <= i < t.len(),
        !e_alfanumerico(t[i]),
    ensures
        aparar_inicio(t.subrange(i, t.len() as int)) == aparar_inicio(t.subrange(i + 1, t.len() as int)),
{
    assert(t.subrange(i, t.len() as int).drop_first() =~= t.subrange(i + 1, t.len() as int));
}

proof fn lema_aparar_fim_passo(t: Seq<char>, i: int, j: int)
    requires
        0 <= i < j <= t.len(),
        !e_alfanumerico(t[j - 1]),
    ensures
        aparar_fim(t.subrange(i, j)) == aparar_fim(t.subrange(i, j - 1)),
{
    assert(t.subrange(i, j).drop_last() =~= t.subrange(i, j - 1));
}

/// Appends the additions of the piece `t` to `saida`.
fn contribuir_peca(t: &Vec<char>, dimensoes: usize, saida: &mut Vec<Contribuicao>)
    requires
        dimensoes > 0,
    ensures
        final(saida)@ == old(saida)@ + contribuicoes_peca(t@, dimensoes),
{
    let n = t.len();
    let mut i: usize = 0;
    proof {
        assert(t@.subrange(0, n as int) =~= t@);
    }
    while i < n && !t[i].is_alphanumeric()
        invariant
            n == t@.len(),
            i <= n,
            aparar_inicio(t@) == aparar_inicio(t@.subrange(i as int, n as int)),
        decreases n - i,
    {
        proof {
            lema_aparar_inicio_passo(t@, i as int);
        }
        i = i + 1;
    }
    let ghost inicio_aparado = t@.subrange(i as int, n as int);
    proof {
        if i < n {
            assert(aparar_inicio(inicio_aparado) == inicio_aparado);
        } else {
            assert(inicio_aparado =~= Seq::<char>::empty());
        }
    }
    let mut j: usize = n;
    while j > i && !t[j - 1].is_alphanumeric()
        invariant
            n == t@.len(),
            i <= j <= n,
            aparar_fim(inicio_aparado) == aparar_fim(t@.subrange(i as int, j as int)),
            inicio_aparado == t@.subrange(i as int, n as int),
        decreases j - i,
    {
        proof {
            lema_aparar_fim_passo(t@, i as int, j as int);
        }
        j = j - 1;
    }
    proof {
        if j > i {
            assert(aparar_fim(t@.subrange(i as int, j as int)) == t@.subrange(i as int, j as int));
        } else {
            assert(t@.subrange(i as int, j as int) =~= Seq::<char>::empty());
        }
        assert(aparar(t@) == t@.subrange(i as int, j as int));
    }
    if j > i {
        let w = &t.as_slice()[i..j];
        contribuir_palavra(w, dimensoes, saida);
    } else {
        proof {
            assert(old(saida)@ + contribuicoes_peca(t@, dimensoes) =~= old(saida)@);
        }
    }
}

/// Marker type of the embedding engine.
pub struct ThzEmbeddingEngine;

impl ThzEmbeddingEngine {
    /// The additions that the embedding of `texto` with `dimensoes` coordinates is
    /// made of, in the order in which they are applied. Every index is below
    /// `dimensoes`, and there are none for an empty text or no coordinates.
    pub fn contribuicoes(texto: &str, dimensoes: usize) -> (r: Vec<Contribuicao>)
        ensures
            r@ == contribuicoes_texto(texto@, dimensoes),
            forall|i: int| 0 <= i < r@.len() ==> #[trigger] r@[i].indice < dimensoes,
    {
        broadcast use vstd::string::group_string_axioms;

        let mut saida: Vec<Contribuicao> = Vec::new();
        if dimensoes == 0 {
            return saida;
        }
        let mut atual: Vec<char> = Vec::new();
        let ghost s = texto@;
        for c in it: texto.chars()
            invariant
                dimensoes > 0,
                it.seq() == s,
                ({
                    let (fechadas, corrente) = pecas_ate(s.subrange(0, it.index() as int));
                    &&& atual@ == corrente
                    &&& saida@ == contribuicoes_pecas(fechadas, dimensoes)
                }),
        {
            let ghost prefixo = s.subrange(0, it.index() as int);
            proof {
                assert(s.subrange(0, it.index() + 1).drop_last() =~= prefixo);
            }
            if c.is_whitespace() {
                if atual.len() > 0 {
                    proof {
                        lema_pecas_concat(pecas_ate(prefixo).0, atual@, dimensoes);
                    }
                    contribuir_peca(&atual, dimensoes, &mut saida);
                    atual = Vec::new();
                }
            } else {
                atual.push(c);
            }
        }
        proof {
            assert(s.subrange(0, s.len() as int) =~= s);
        }
        if atual.len() > 0 {
            proof {
                lema_pecas_concat(pecas_ate(s).0, atual@, dimensoes);
            }
            contribuir_peca(&atual, dimensoes, &mut saida);
        }
        proof {
            lema_indices(pecas(s), dimensoes);
        }
        saida
    }
}

proof fn lema_indices(ps: Seq<Seq<char>>, d: usize)
    requires
        d > 0,
    ensures
        forall|i: int| 0 <= i < contribuicoes_pecas(ps, d).len()
            ==> #[trigger] contribuicoes_pecas(ps, d)[i].indice < d,
    decreases ps.len(),
{
    if ps.len() > 0 {
        lema_indices(ps.drop_last(), d);
        let a = contribuicoes_pecas(ps.drop_last(), d);
        let b = contribuicoes_peca(ps.last(), d);
        assert forall|i: int| 0 <= i < b.len() implies #[trigger] b[i].indice < d by {
            let w = aparar(ps.last());
            let bytes = encode_utf8(minusculas(w));
            if i > 0 {
                assert(b[i] == contribuicoes_trigramas(bytes, d)[i - 1]);
            }
        }
        assert forall|i: int| 0 <= i < (a + b).len() implies #[trigger] (a + b)[i].indice < d by {
            if i >= a.len() {
                assert((a + b)[i] == b[i - a.len()]);
            }
        }
    }
}

} // verus!
