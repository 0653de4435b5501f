use thz_runtime::crypto::{
    criptografar_aes_gcm, descriptografar_aes_gcm, hash_argon2id, verificar_argon2id,
};

const PHC_PEQUENO: &str =
    "$argon2id$v=19$m=8,t=1,p=1$c2FsdHNhbHRzYWx0c2FsdA$JaThcTn9zpm3XpimgHA43Mf/juu0YP7pLjgDEs/QxU8";

fn hex(s: &str) -> Vec<u8> {
    (0..s.len()).step_by(2).map(|i| u8::from_str_radix(&s[i..i + 2], 16).unwrap()).collect()
}

#[test]
fn argon2_verifica_hash_conhecido() {
    assert!(verificar_argon2id("senha", PHC_PEQUENO));
    assert!(!verificar_argon2id("Senha", PHC_PEQUENO));
    assert!(!verificar_argon2id("", PHC_PEQUENO));
}

#[test]
fn argon2_hash_invalido_nao_confere() {
    assert!(!verificar_argon2id("senha", ""));
    assert!(!verificar_argon2id("senha", "nao e um hash"));
    assert!(!verificar_argon2id("senha", "$argon2id$v=19$m=8,t=1,p=1"));
}

#[test]
fn argon2_hash_e_verificacao() {
    let h = hash_argon2id("correct horse battery staple").unwrap();
    assert!(h.starts_with("$argon2id$v=19$m=65536,t=3,p=4$"));
    assert!(verificar_argon2id("correct horse battery staple", &h));
    assert!(!verificar_argon2id("correct horse battery stapler", &h));
}

#[test]
fn aes_gcm_vetor_conhecido() {
    let chave = [0u8; 32];
    let nonce = [0u8; 12];
    let vazio = criptografar_aes_gcm(&[], &chave, &nonce).unwrap();
    assert_eq!(vazio, hex("530f8afbc74536b9a963b4f1c4cb738b"));
    let c = criptografar_aes_gcm(&[0u8; 16], &chave, &nonce).unwrap();
    assert_eq!(c, hex("cea7403d4d606b6e074ec5d3baf39d18d0d1c8a799996bf0265b98b5d48ab919"));
    assert_eq!(descriptografar_aes_gcm(&c, &chave, &nonce).unwrap(), vec![0u8; 16]);
}

#[test]
fn aes_gcm_ida_e_volta() {
    let mut chave = [0u8; 32];
    for (i, b) in chave.iter_mut().enumerate() {
        *b = i as u8;
    }
    let nonce = [7u8; 12];
    let msg = "mensagem secreta — com acentuação".as_bytes();
    let c = criptografar_aes_gcm(msg, &chave, &nonce).unwrap();
    assert_eq!(c.len(), msg.len() + 16);
    assert_ne!(&c[..msg.len()], msg);
    assert_eq!(descriptografar_aes_gcm(&c, &chave, &nonce).unwrap(), msg.to_vec());
}

#[test]
fn aes_gcm_rejeita_adulteracao() {
    let chave = [1u8; 32];
    let nonce = [2u8; 12];
    let mut c = criptografar_aes_gcm(b"abc", &chave, &nonce).unwrap();
    c[0] ^= 1;
    assert_eq!(descriptografar_aes_gcm(&c, &chave, &nonce).unwrap_err(), "aead::Error");
    let outra = [9u8; 32];
    let c = criptografar_aes_gcm(b"abc", &chave, &nonce).unwrap();
    assert_eq!(descriptografar_aes_gcm(&c, &outra, &nonce).unwrap_err(), "aead::Error");
    assert_eq!(descriptografar_aes_gcm(&[0u8; 15], &chave, &nonce).unwrap_err(), "aead::Error");
}

#[test]
fn argon2_forma_do_hash() {
    let h1 = hash_argon2id("senha").unwrap();
    let h2 = hash_argon2id("senha").unwrap();
    for h in [&h1, &h2] {
        assert_eq!(h.len(), 97);
        assert!(h.starts_with("$argon2id$v=19$m=65536,t=3,p=4$"));
        assert_eq!(&h[53..54], "$");
        let b64 = |c: char| c.is_ascii_alphanumeric() || c == '+' || c == '/';
        assert!(h[31..53].chars().all(b64));
        assert!(h[54..].chars().all(b64));
        assert_eq!(h[54..].len(), 43);
    }
    assert_ne!(&h1[31..53], &h2[31..53]);
    assert_ne!(h1, h2);
    assert!(verificar_argon2id("senha", &h1));
    assert!(verificar_argon2id("senha", &h2));
    assert!(!verificar_argon2id("senha", "not-a-phc-hash"));
    assert!(!verificar_argon2id("senha", ""));
}
