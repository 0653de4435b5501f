use thz_runtime::texto::{contem_nulo, texto_bool, texto_c, thz_char_at, thz_substring, thz_tamanho_str};

#[test]
fn tamanho_de_cadeia() {
    assert_eq!(thz_tamanho_str(None), 0);
    assert_eq!(thz_tamanho_str(Some(b"")), 0);
    assert_eq!(thz_tamanho_str(Some("olá".as_bytes())), 4);
}

#[test]
fn caractere_na_posicao() {
    let s: &[u8] = b"THZ";
    assert_eq!(thz_char_at(None, 0), 0);
    assert_eq!(thz_char_at(Some(s), 0), 'T' as i32);
    assert_eq!(thz_char_at(Some(s), 2), 'Z' as i32);
    assert_eq!(thz_char_at(Some(s), 3), 0);
    assert_eq!(thz_char_at(Some(s), -1), 0);
    assert_eq!(thz_char_at(Some("é".as_bytes()), 0), 0xC3);
}

#[test]
fn subcadeia() {
    let s: &[u8] = b"hello";
    assert_eq!(thz_substring(Some(s), 1, 3), b"ell".to_vec());
    assert_eq!(thz_substring(Some(s), 3, 100), b"lo".to_vec());
    assert_eq!(thz_substring(Some(s), 0, i32::MAX), b"hello".to_vec());
    assert_eq!(thz_substring(Some(s), i32::MAX, i32::MAX), Vec::<u8>::new());
    assert_eq!(thz_substring(Some(s), 5, 1), Vec::<u8>::new());
    assert_eq!(thz_substring(Some(s), -1, 2), Vec::<u8>::new());
    assert_eq!(thz_substring(Some(s), 1, 0), Vec::<u8>::new());
    assert_eq!(thz_substring(Some(s), 1, -4), Vec::<u8>::new());
    assert_eq!(thz_substring(None, 0, 3), Vec::<u8>::new());
}

#[test]
fn subcadeia_com_nulo_fica_vazia() {
    let s: &[u8] = b"ab\0cd";
    assert_eq!(thz_substring(Some(s), 0, 2), b"ab".to_vec());
    assert_eq!(thz_substring(Some(s), 1, 3), Vec::<u8>::new());
}

#[test]
fn cadeia_c() {
    assert!(contem_nulo(b"a\0"));
    assert!(!contem_nulo(b"abc"));
    assert_eq!(texto_c(b"abc"), b"abc".to_vec());
    assert_eq!(texto_c(b"a\0c"), Vec::<u8>::new());
    assert_eq!(texto_c(b""), Vec::<u8>::new());
}

#[test]
fn booleano_por_extenso() {
    assert_eq!(texto_bool(true), "VERDADEIRO");
    assert_eq!(texto_bool(false), "FALSO");
}
