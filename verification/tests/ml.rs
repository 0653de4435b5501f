use thz_runtime::ml::{Contribuicao, ThzEmbeddingEngine};

fn c(indice: usize, meios: i8) -> Contribuicao {
    Contribuicao { indice, meios }
}

/// Straightforward statement of the hashing scheme, used as an oracle.
fn oraculo(texto: &str, dims: usize) -> Vec<Contribuicao> {
    fn fnv(b: &[u8]) -> u64 {
        let mut h: u64 = 0xcbf29ce484222325;
        for &x in b {
            h ^= x as u64;
            h = h.wrapping_mul(0x100000001b3);
        }
        h
    }
    fn sinal(h: u64, peso: i8) -> i8 {
        if (h >> 32) & 1 == 0 { peso } else { -peso }
    }
    let mut r = Vec::new();
    if dims == 0 {
        return r;
    }
    for peca in texto.split_whitespace() {
        let w = peca.trim_matches(|ch: char| !ch.is_alphanumeric());
        if w.is_empty() {
            continue;
        }
        let lower = w.to_lowercase();
        let b = lower.as_bytes();
        let h = fnv(b);
        r.push(c((h as usize) % dims, sinal(h, 2)));
        if b.len() >= 3 {
            for k in 0..b.len() - 2 {
                let s = fnv(&b[k..k + 3]);
                r.push(c((s as usize) % dims, sinal(s, 1)));
            }
        }
    }
    r
}

#[test]
fn embedding_texto_vazio_ou_sem_dimensoes() {
    assert!(ThzEmbeddingEngine::contribuicoes("", 16).is_empty());
    assert!(ThzEmbeddingEngine::contribuicoes("  \t\n ", 16).is_empty());
    assert!(ThzEmbeddingEngine::contribuicoes("!!! ... ¿?", 16).is_empty());
    assert!(ThzEmbeddingEngine::contribuicoes("texto qualquer", 0).is_empty());
}

#[test]
fn embedding_palavra_curta() {
    // FNV-1a("abc") = 0xe71fa2190541574b: 5 mod 7, bit 32 set
    assert_eq!(ThzEmbeddingEngine::contribuicoes("abc", 7), vec![c(5, -2), c(5, -1)]);
    assert_eq!(ThzEmbeddingEngine::contribuicoes("ab", 7).len(), 1);
}

#[test]
fn embedding_apara_e_minusculas() {
    let r = ThzEmbeddingEngine::contribuicoes("  ¡Olá,\tMUNDO!! ", 7);
    assert_eq!(
        r,
        vec![c(5, 2), c(4, -1), c(2, -1), c(1, -2), c(0, -1), c(0, -1), c(4, -1)]
    );
    assert_eq!(r, ThzEmbeddingEngine::contribuicoes("olá mundo", 7));
}

#[test]
fn embedding_igual_ao_oraculo() {
    let textos = [
        "O rato roeu a roupa do rei de Roma",
        "Integração contínua, testes\u{00A0}unitários e «aspas»",
        "ΣΊΣΥΦΟΣ καὶ ὈΔΥΣΣΕΎΣ",
        "a b c dd eee ffff 12345 x1y2z3",
        "tab\tnova\nlinha\u{2003}em-espaço",
    ];
    for t in textos.iter() {
        for dims in [1usize, 2, 7, 128, 384] {
            let r = ThzEmbeddingEngine::contribuicoes(t, dims);
            assert_eq!(r, oraculo(t, dims));
            assert!(r.iter().all(|x| x.indice < dims));
        }
    }
}

#[test]
fn embedding_mesmas_palavras_mesmas_adicoes() {
    assert_eq!(
        ThzEmbeddingEngine::contribuicoes("Olá, Mundo!", 64),
        ThzEmbeddingEngine::contribuicoes("  olá   (MUNDO) ", 64)
    );
}

#[test]
fn embedding_ordem_das_palavras_nao_importa() {
    let mut a = ThzEmbeddingEngine::contribuicoes("Olá, Mundo!", 384);
    let mut b = ThzEmbeddingEngine::contribuicoes("mundo   olá", 384);
    assert_ne!(a, b);
    a.sort_by_key(|x| (x.indice, x.meios));
    b.sort_by_key(|x| (x.indice, x.meios));
    assert_eq!(a, b);
}
