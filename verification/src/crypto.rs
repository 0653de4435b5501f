//! Cryptographic primitives: Argon2id password hashing (PHC strings) and
//! AES-256-GCM authenticated encryption.
//!
//! The primitives themselves are those of the `argon2` and `aes-gcm` crates. What a
//! primitive computes is named here (for instance `aes256gcm_selar`) and only the
//! facts that those crates' code and documentation give about it are stated.
use vstd::prelude::*;
use vstd::string::*;
use vstd::utf8::*;
use crate::numero::decimal;
use argon2::{Argon2, Params, PasswordHasher, PasswordVerifier};
use argon2::password_hash::{PasswordHash, SaltString};
use aes_gcm::aead::{Aead, KeyInit};

verus! {

/// `argon2::Params`, the Argon2 cost parameters; opaque here.
#[verifier::external_type_specification]
#[verifier::external_body]
pub struct ExParams(argon2::Params);

/// `argon2::Argon2`, an Argon2 hashing context; opaque here.
#[verifier::external_type_specification]
#[verifier::external_body]
pub struct ExArgon2<'key>(argon2::Argon2<'key>);

/// `argon2::Error`, the error of the Argon2 API; opaque here.
#[verifier::external_type_specification]
#[verifier::external_body]
pub struct ExErroArgon2(argon2::Error);

/// `password_hash::SaltString`, a Base64 salt; opaque here.
#[verifier::external_type_specification]
#[verifier::external_body]
pub struct ExSaltString(argon2::password_hash::SaltString);

/// `password_hash::PasswordHash`, a parsed PHC string; opaque here.
#[verifier::external_type_specification]
#[verifier::external_body]
pub struct ExPasswordHash<'a>(argon2::password_hash::PasswordHash<'a>);

/// `password_hash::Error`, the error of the password-hash API; opaque here.
#[verifier::external_type_specification]
#[verifier::external_body]
pub struct ExErroHash(argon2::password_hash::Error);

/// `aead::Error`, the (deliberately opaque) error of AES-GCM.
#[verifier::external_type_specification]
#[verifier::external_body]
pub struct ExErroAead(aes_gcm::aead::Error);

/// Argon2 variant.
#[derive(Clone, Copy, Debug, PartialEq, Eq, Structural)]
pub enum Algoritmo {
    Argon2d,
    Argon2i,
    Argon2id,
}

/// Argon2 version.
#[derive(Clone, Copy, Debug, PartialEq, Eq, Structural)]
pub enum VersaoArgon2 {
    V0x10,
    V0x13,
}

/// Memory cost (KiB) of the hashes that `hash_argon2id` makes.
pub const ARGON2_M_COST: u32 = 65536;

/// Number of passes of the hashes that `hash_argon2id` makes.
pub const ARGON2_T_COST: u32 = 3;

/// Lanes of the hashes that `hash_argon2id` makes.
pub const ARGON2_P_COST: u32 = 4;

/// Output length (bytes) of the hashes that `hash_argon2id` makes.
pub const ARGON2_SAIDA: usize = 32;

/// Longest password that Argon2 accepts, in bytes.
pub const ARGON2_MAX_SENHA: usize = 0xFFFF_FFFF;

/// Longest message that AES-GCM encrypts, in bytes (`2^36`).
pub const AES_GCM_MAX_DADOS: u64 = 0x10_0000_0000;

/// Bytes that AES-GCM adds to a message (its authentication tag).
pub const AES_GCM_TAG: usize = 16;

/// Whether `Params::new(m_cost, t_cost, p_cost, output_len)` accepts its arguments.
pub open spec fn params_aceitos(m_cost: u32, t_cost: u32, p_cost: u32, output_len: Option<usize>) -> bool {
    &&& m_cost >= 8
    &&& m_cost >= p_cost * 8
    &&& t_cost >= 1
    &&& 1 <= p_cost <= 0xFF_FFFF
    &&& (output_len matches Some(l) ==> 4 <= l <= 0xFFFF_FFFF)
}

/// Whether `PasswordHash::new` parses `texto` as a PHC string.
pub uninterp spec fn phc_valido(texto: Seq<char>) -> bool;

/// Whether Argon2 verification (`PasswordVerifier::verify_password`) accepts the
/// password bytes `senha` against the parsed PHC string `phc`.
pub uninterp spec fn argon2_confere(senha: Seq<u8>, phc: Seq<char>) -> bool;

/// The ciphertext (message followed by its tag) that AES-256-GCM makes of `dados`
/// with key `chave` and nonce `nonce`, without associated data.
pub uninterp spec fn aes256gcm_selar(chave: Seq<u8>, nonce: Seq<u8>, dados: Seq<u8>) -> Seq<u8>;

/// The message that AES-256-GCM recovers from `cifrado` with key `chave` and nonce
/// `nonce`, or `None` when the tag does not authenticate it.
pub uninterp spec fn aes256gcm_abrir(chave: Seq<u8>, nonce: Seq<u8>, cifrado: Seq<u8>) -> Option<Seq<u8>>;

/// What `descriptografar_aes_gcm` returns for `cifrado` under `chave` and `nonce`: the
/// message that AES-256-GCM recovers, or the error text when the tag does not
/// authenticate the ciphertext.
pub open spec fn resultado_decifrar(chave: Seq<u8>, nonce: Seq<u8>, cifrado: Seq<u8>) -> Result<Seq<u8>, Seq<char>> {
    match aes256gcm_abrir(chave, nonce, cifrado) {
        Some(p) => Ok(p),
        None => Err("aead::Error"@),
    }
}

/// Whether `verificar_argon2id(senha, phc)` accepts: `phc` parses as a PHC string and
/// Argon2 verification of the password's UTF-8 bytes against it succeeds.
pub open spec fn senha_confere(senha: Seq<char>, phc: Seq<char>) -> bool {
    phc_valido(phc) && argon2_confere(encode_utf8(senha), phc)
}

/// Output lengths that a PHC string can carry (`password_hash::Output` holds 10 to
/// 64 bytes); none given means the default of 32.
pub open spec fn saida_aceita(saida: Option<usize>) -> bool {
    match saida {
        None => true,
        Some(l) => 10 <= l <= 64,
    }
}

/// Argon2 cost parameters, with the values they were made with.
pub struct ParamsArgon2 {
    m_cost: u32,
    t_cost: u32,
    p_cost: u32,
    saida: Option<usize>,
    interno: Params,
}

impl ParamsArgon2 {
    /// Memory cost (KiB) the parameters were made with.
    pub closed spec fn m_cost(&self) -> u32 {
        self.m_cost
    }

    /// Number of passes the parameters were made with.
    pub closed spec fn t_cost(&self) -> u32 {
        self.t_cost
    }

    /// Lanes the parameters were made with.
    pub closed spec fn p_cost(&self) -> u32 {
        self.p_cost
    }

    /// The output length the parameters were made with.
    pub closed spec fn saida(&self) -> Option<usize> {
        self.saida
    }
}

/// An Argon2 hashing context (without a secret key), with the variant, version and
/// parameter values it was made with.
pub struct ContextoArgon2 {
    algoritmo: Algoritmo,
    versao: VersaoArgon2,
    m_cost: u32,
    t_cost: u32,
    p_cost: u32,
    saida: Option<usize>,
    interno: Argon2<'static>,
}

impl ContextoArgon2 {
    /// The context's Argon2 variant.
    pub closed spec fn algoritmo(&self) -> Algoritmo {
        self.algoritmo
    }

    /// The context's Argon2 version.
    pub closed spec fn versao(&self) -> VersaoArgon2 {
        self.versao
    }

    /// The context's memory cost (KiB).
    pub closed spec fn m_cost(&self) -> u32 {
        self.m_cost
    }

    /// The context's number of passes.
    pub closed spec fn t_cost(&self) -> u32 {
        self.t_cost
    }

    /// The context's number of lanes.
    pub closed spec fn p_cost(&self) -> u32 {
        self.p_cost
    }

    /// The output length of the context's parameters.
    pub closed spec fn saida(&self) -> Option<usize> {
        self.saida
    }
}

/// Identifier of an Argon2 variant in a PHC string.
pub open spec fn ident_algoritmo(a: Algoritmo) -> Seq<char> {
    match a {
        Algoritmo::Argon2d => "argon2d"@,
        Algoritmo::Argon2i => "argon2i"@,
        Algoritmo::Argon2id => "argon2id"@,
    }
}

/// Number of an Argon2 version in a PHC string (`0x10` and `0x13`).
pub open spec fn numero_versao(v: VersaoArgon2) -> nat {
    match v {
        VersaoArgon2::V0x10 => 16,
        VersaoArgon2::V0x13 => 19,
    }
}

/// Start of the PHC string of an Argon2 hash, before the salt and the output:
/// `$<variant>$v=<version>$m=<m>,t=<t>,p=<p>$`.
pub open spec fn prefixo_phc(a: Algoritmo, v: VersaoArgon2, m_cost: u32, t_cost: u32, p_cost: u32) -> Seq<char> {
    "$"@ + ident_algoritmo(a) + "$v="@ + decimal(numero_versao(v)) + "$m="@ + decimal(m_cost as nat) + ",t="@
        + decimal(t_cost as nat) + ",p="@ + decimal(p_cost as nat) + "$"@
}

/// Whether `s` starts with `prefixo`.
pub open spec fn comeca_com(s: Seq<char>, prefixo: Seq<char>) -> bool {
    s.len() >= prefixo.len() && s.subrange(0, prefixo.len() as int) == prefixo
}

/// A character of the Base64 alphabet of PHC strings (`A-Z`, `a-z`, `0-9`, `+`, `/`).
pub open spec fn caractere_b64(c: char) -> bool {
    ('A' <= c <= 'Z') || ('a' <= c <= 'z') || ('0' <= c <= '9') || c == '+' || c == '/'
}

/// Whether every character of `s` is a Base64 character.
pub open spec fn e_b64(s: Seq<char>) -> bool {
    forall|i: int| 0 <= i < s.len() ==> #[trigger] caractere_b64(s[i])
}

/// Length of the unpadded Base64 text of `n` bytes: `4n/3` rounded up.
pub open spec fn comprimento_b64(n: nat) -> nat {
    if (4 * n) % 3 == 0 {
        (4 * n) / 3
    } else {
        (4 * n) / 3 + 1
    }
}

/// Output length in bytes of a hash made with parameters of output length `saida`
/// (`None` is Argon2's default of 32).
pub open spec fn saida_efetiva(saida: Option<usize>) -> nat {
    match saida {
        None => 32,
        Some(l) => l as nat,
    }
}

/// Number of characters of a salt that `gerar_salt` draws: 16 bytes in Base64.
pub const SALT_B64: usize = 22;

/// A salt drawn by `gerar_salt`, with its Base64 text; no other value of this type is
/// ever made.
pub struct SaltGerado {
    texto: String,
    interno: SaltString,
}

impl SaltGerado {
    /// The salt's Base64 text, as it is written in a PHC string.
    pub closed spec fn texto(&self) -> Seq<char> {
        self.texto@
    }
}

/// Start of the PHC string that `contexto` makes with `salt`, up to the output:
/// the parameter prefix, the salt's text and `$`.
pub open spec fn cabecalho_phc(contexto: &ContextoArgon2, salt: &SaltGerado) -> Seq<char> {
    prefixo_phc(contexto.algoritmo(), contexto.versao(), contexto.m_cost(), contexto.t_cost(), contexto.p_cost())
        + salt.texto() + "$"@
}

/// Length of the PHC strings that `hash_argon2id` makes.
pub const HASH_PADRAO_LEN: usize = 97;

/// The parameter prefix of the PHC strings that `hash_argon2id` makes.
pub open spec fn prefixo_padrao() -> Seq<char> {
    "$argon2id$v=19$m=65536,t=3,p=4$"@
}

/// The salt of a PHC string made by `hash_argon2id`: the 22 characters after the prefix.
pub open spec fn sal_do_hash(h: Seq<char>) -> Seq<char> {
    h.subrange(31, 53)
}

/// The output of a PHC string made by `hash_argon2id`: what follows the salt and `$`.
pub open spec fn etiqueta_do_hash(h: Seq<char>) -> Seq<char> {
    h.subrange(54, h.len() as int)
}

/// The shape of every PHC string that `hash_argon2id` makes, whatever salt was
/// drawn: the Argon2id prefix, a 22-character Base64 salt, `$`, and the 32-byte
/// output in 43 Base64 characters.
pub open spec fn forma_hash_padrao(h: Seq<char>) -> bool {
    &&& h.len() == HASH_PADRAO_LEN
    &&& h.subrange(0, 31) == prefixo_padrao()
    &&& e_b64(sal_do_hash(h))
    &&& h[53] == '$'
    &&& e_b64(etiqueta_do_hash(h))
}

/// `argon2::Params::new`: as its code shows, it accepts exactly the arguments of
/// `params_aceitos` (memory at least 8 KiB and 8 KiB per lane, at least one pass,
/// 1 to `2^24 - 1` lanes, an output of 4 to `2^32 - 1` bytes), and the parameters
/// keep the output length they were given. It computes `p_cost * 8` in `u32`, so
/// larger lane counts are left out.
#[verifier::external_body]
fn parametros_argon2(m_cost: u32, t_cost: u32, p_cost: u32, output_len: Option<usize>) -> (r: Result<ParamsArgon2, argon2::Error>)
    requires
        p_cost * 8 <= u32::MAX,
    ensures
        r is Ok <==> params_aceitos(m_cost, t_cost, p_cost, output_len),
        r matches Ok(p) ==> p.saida() == output_len && p.m_cost() == m_cost && p.t_cost() == t_cost
            && p.p_cost() == p_cost,
{
    match Params::new(m_cost, t_cost, p_cost, output_len) {
        Ok(interno) => Ok(ParamsArgon2 { m_cost, t_cost, p_cost, saida: output_len, interno }),
        Err(e) => Err(e),
    }
}

/// `argon2::Argon2::new`: a hashing context for the given variant, version and
/// parameters, without a secret key; it keeps the variant, version and parameter
/// values.
#[verifier::external_body]
fn contexto_argon2(algoritmo: Algoritmo, versao: VersaoArgon2, params: ParamsArgon2) -> (r: ContextoArgon2)
    ensures
        r.algoritmo() == algoritmo,
        r.versao() == versao,
        r.m_cost() == params.m_cost(),
        r.t_cost() == params.t_cost(),
        r.p_cost() == params.p_cost(),
        r.saida() == params.saida(),
{
    let algorithm = match algoritmo {
        Algoritmo::Argon2d => argon2::Algorithm::Argon2d,
        Algoritmo::Argon2i => argon2::Algorithm::Argon2i,
        Algoritmo::Argon2id => argon2::Algorithm::Argon2id,
    };
    let version = match versao { VersaoArgon2::V0x10 => argon2::Version::V0x10, VersaoArgon2::V0x13 => argon2::Version::V0x13 };
    let (m_cost, t_cost, p_cost, saida) = (params.m_cost, params.t_cost, params.p_cost, params.saida);
    ContextoArgon2 { algoritmo, versao, m_cost, t_cost, p_cost, saida, interno: Argon2::new(algorithm, version, params.interno) }
}

/// `argon2::Argon2::default()`: the default context (Argon2id, version 0x13, default
/// parameters), without a secret key. Nothing is stated of the opaque value.
#[verifier::external_body]
fn contexto_padrao() -> Argon2<'static> {
    Argon2::default()
}

/// `SaltString::generate(&mut OsRng)`: a fresh salt of 16 random bytes from the
/// operating system's generator, encoded with `Encoding::B64` (standard Base64
/// without padding), so its text is 22 Base64 characters. Which bytes were drawn
/// depends on chance and is not stated.
#[verifier::external_body]
fn gerar_salt() -> (r: SaltGerado)
    ensures
        r.texto().len() == SALT_B64,
        e_b64(r.texto()),
{
    let interno = SaltString::generate(&mut argon2::password_hash::rand_core::OsRng);
    SaltGerado { texto: interno.as_str().to_string(), interno }
}

/// `PasswordHasher::hash_password` of an Argon2 context, written out as its PHC
/// string. The password bytes, the context and the salt all go in, but the context
/// and the salt are opaque here, so the result is not named. What is stated, as the
/// code shows: a password longer than `ARGON2_MAX_SENHA` bytes is refused; any other
/// password is hashed when the context's output length fits a PHC string
/// (`saida_aceita`), since a generated salt decodes to 16 bytes (8 to 64 are
/// accepted) and nothing else is checked; and a PHC string that comes out parses
/// again and verifies the same password (verification recomputes the hash from the
/// string's own algorithm, version, parameters and salt; no context of this library
/// holds a secret key). The PHC string is written by `PasswordHash`'s `Display`:
/// `$`, the variant's identifier, `$v=` and the version, `$` and the parameters
/// `m=..,t=..,p=..` of the context, then `$` and the salt's text, `$` and the output
/// (of the parameters' output length, 32 bytes when none is set) in unpadded
/// Base64. Which output bytes come out is not stated.
#[verifier::external_body]
fn calcular_hash(contexto: &ContextoArgon2, senha: &[u8], salt: &SaltGerado) -> (r: Result<String, argon2::password_hash::Error>)
    ensures
        senha@.len() > ARGON2_MAX_SENHA ==> r is Err,
        senha@.len() <= ARGON2_MAX_SENHA && saida_aceita(contexto.saida()) ==> r is Ok,
        r matches Ok(h) ==> phc_valido(h@) && argon2_confere(senha@, h@),
        r matches Ok(h) ==> comeca_com(
            h@,
            prefixo_phc(contexto.algoritmo(), contexto.versao(), contexto.m_cost(), contexto.t_cost(), contexto.p_cost()),
        ),
        r matches Ok(h) ==> comeca_com(h@, cabecalho_phc(contexto, salt)),
        r matches Ok(h) ==> h@.len() == cabecalho_phc(contexto, salt).len() + comprimento_b64(
            saida_efetiva(contexto.saida()),
        ),
        r matches Ok(h) ==> e_b64(h@.subrange(cabecalho_phc(contexto, salt).len() as int, h@.len() as int)),
{
    match contexto.interno.hash_password(senha, &salt.interno) {
        Ok(h) => Ok(h.to_string()),
        Err(e) => Err(e),
    }
}

/// A PHC string together with its parsed form.
pub struct HashPhc<'a> {
    texto: &'a str,
    analisado: PasswordHash<'a>,
}

impl<'a> HashPhc<'a> {
    /// The PHC string.
    pub closed spec fn texto(&self) -> Seq<char> {
        self.texto@
    }
}

/// `PasswordHash::new`: parses `texto` as a PHC string; whether it succeeds depends on
/// the text alone (`phc_valido`). As its code shows, an empty text, or one whose
/// first field (before the first `$`) is not empty, is refused. The parsed value is
/// kept beside its text.
#[verifier::external_body]
fn analisar_phc<'a>(texto: &'a str) -> (r: Result<HashPhc<'a>, argon2::password_hash::Error>)
    ensures
        r is Ok <==> phc_valido(texto@),
        r matches Ok(h) ==> h.texto() == texto@,
        texto@.len() == 0 || texto@[0] != '$' ==> r is Err,
{
    match PasswordHash::new(texto) {
        Ok(analisado) => Ok(HashPhc { texto, analisado }),
        Err(e) => Err(e),
    }
}

/// `PasswordVerifier::verify_password` of an Argon2 context, as a yes/no answer: it
/// recomputes the hash of `senha` with the algorithm, version, parameters and salt
/// written in the PHC string and compares, so the answer depends on the password
/// and the PHC string (`argon2_confere`); of the context only its secret key is
/// used, and no context of this library holds one.
#[verifier::external_body]
fn conferir_senha(contexto: &Argon2, senha: &[u8], hash: &HashPhc) -> (r: bool)
    ensures
        r == argon2_confere(senha@, hash.texto()),
{
    contexto.verify_password(senha, &hash.analisado).is_ok()
}

/// The text of an error of the password-hash API (its `Display`). Nothing is stated
/// of it.
#[verifier::external_body]
fn texto_erro_hash(e: &argon2::password_hash::Error) -> String {
    e.to_string()
}

proof fn lema_prefixo_padrao()
    ensures
        prefixo_phc(Algoritmo::Argon2id, VersaoArgon2::V0x13, ARGON2_M_COST, ARGON2_T_COST, ARGON2_P_COST)
            == "$argon2id$v=19$m=65536,t=3,p=4$"@,
{
    reveal_strlit("$");
    reveal_strlit("argon2id");
    reveal_strlit("$v=");
    reveal_strlit("$m=");
    reveal_strlit(",t=");
    reveal_strlit(",p=");
    reveal_strlit("$argon2id$v=19$m=65536,t=3,p=4$");
    reveal_with_fuel(decimal, 6);
    assert(decimal(19) =~= seq!['1', '9']);
    assert(decimal(65536) =~= seq!['6', '5', '5', '3', '6']);
    assert(decimal(3) =~= seq!['3']);
    assert(decimal(4) =~= seq!['4']);
    assert(prefixo_phc(Algoritmo::Argon2id, VersaoArgon2::V0x13, ARGON2_M_COST, ARGON2_T_COST, ARGON2_P_COST)
        =~= "$argon2id$v=19$m=65536,t=3,p=4$"@);
}

proof fn lema_forma_padrao(h: Seq<char>, sal: Seq<char>)
    requires
        sal.len() == SALT_B64,
        e_b64(sal),
        comeca_com(h, prefixo_padrao() + sal + "$"@),
        h.len() == (prefixo_padrao() + sal + "$"@).len() + comprimento_b64(32),
        e_b64(h.subrange((prefixo_padrao() + sal + "$"@).len() as int, h.len() as int)),
    ensures
        forma_hash_padrao(h),
{
    reveal_strlit("$argon2id$v=19$m=65536,t=3,p=4$");
    reveal_strlit("$");
    let c = prefixo_padrao() + sal + "$"@;
    assert(c.len() == 54);
    assert(comprimento_b64(32) == 43);
    assert(h.subrange(0, 54) == c);
    assert(h.subrange(0, 31) =~= c.subrange(0, 31));
    assert(c.subrange(0, 31) =~= prefixo_padrao());
    assert(sal_do_hash(h) =~= c.subrange(31, 53));
    assert(c.subrange(31, 53) =~= sal);
    assert(h[53] == c[53]);
    assert(c[53] == '$');
}

/// The salt is written into the hash: two PHC strings of `hash_argon2id` with
/// different salts are different strings (so two calls on the same password give
/// different hashes unless the operating system draws the same 16 bytes twice).
pub proof fn lei_sais_diferentes_hashes_diferentes(h1: Seq<char>, h2: Seq<char>)
    requires
        forma_hash_padrao(h1),
        forma_hash_padrao(h2),
        sal_do_hash(h1) != sal_do_hash(h2),
    ensures
        h1 != h2,
{
}

/// Hashes `senha` with Argon2id (version 0x13, 64 MiB, 3 passes, 4 lanes, 32-byte
/// output) and a fresh random salt, and returns the PHC string. It succeeds exactly
/// for passwords of at most `ARGON2_MAX_SENHA` bytes; the string has the Argon2id
/// prefix, the 22-character salt and the 43-character output, and it is accepted by
/// `verificar_argon2id` for the same password.
pub fn hash_argon2id(senha: &str) -> (r: Result<String, String>)
    ensures
        r matches Ok(h) ==> senha_confere(senha@, h@),
        encode_utf8(senha@).len() > ARGON2_MAX_SENHA ==> r is Err,
        encode_utf8(senha@).len() <= ARGON2_MAX_SENHA ==> r is Ok,
        r matches Ok(h) ==> comeca_com(h@, "$argon2id$v=19$m=65536,t=3,p=4$"@),
        r matches Ok(h) ==> forma_hash_padrao(h@),
{
    let salt = gerar_salt();
    let params = match parametros_argon2(ARGON2_M_COST, ARGON2_T_COST, ARGON2_P_COST, Some(ARGON2_SAIDA)) {
        Ok(p) => p,
        Err(_) => {
            proof {
                assert(params_aceitos(ARGON2_M_COST, ARGON2_T_COST, ARGON2_P_COST, Some(ARGON2_SAIDA)));
                assert(false);
            }
            return Err(String::new());
        },
    };
    let contexto = contexto_argon2(Algoritmo::Argon2id, VersaoArgon2::V0x13, params);
    proof {
        lema_prefixo_padrao();
    }
    match calcular_hash(&contexto, senha.as_bytes(), &salt) {
        Ok(h) => {
            proof {
                lema_forma_padrao(h@, salt.texto());
            }
            Ok(h)
        },
        Err(e) => Err(texto_erro_hash(&e)),
    }
}

/// Whether `senha` matches the PHC string `hash_str`: false when the string does not
/// parse (in particular when it is empty or does not start with `$`), else what
/// Argon2 verification answers.
pub fn verificar_argon2id(senha: &str, hash_str: &str) -> (r: bool)
    ensures
        r == senha_confere(senha@, hash_str@),
        hash_str@.len() == 0 || hash_str@[0] != '$' ==> !r,
{
    match analisar_phc(hash_str) {
        Err(_) => false,
        Ok(h) => {
            let contexto = contexto_padrao();
            conferir_senha(&contexto, senha.as_bytes(), &h)
        },
    }
}

/// `Aes256Gcm::new(chave).encrypt(nonce, dados)`: as the `aes-gcm` code shows, it
/// refuses messages longer than `AES_GCM_MAX_DADOS` bytes and otherwise returns the
/// ciphertext, which is the message's length plus the 16-byte tag and depends on the
/// key, the nonce and the message alone (`aes256gcm_selar`). As AES-GCM is built,
/// decryption with the same key and nonce opens that ciphertext to the message.
#[verifier::external_body]
fn aes256gcm_cifrar(chave: &[u8; 32], nonce: &[u8; 12], dados: &[u8]) -> (r: Result<Vec<u8>, aes_gcm::aead::Error>)
    ensures
        r is Ok <==> dados@.len() <= AES_GCM_MAX_DADOS,
        r matches Ok(c) ==> c@ == aes256gcm_selar(chave@, nonce@, dados@) && c@.len() == dados@.len()
            + AES_GCM_TAG,
        r matches Ok(c) ==> aes256gcm_abrir(chave@, nonce@, c@) == Some(dados@),
{
    aes_gcm::Aes256Gcm::new(chave.into()).encrypt(aes_gcm::Nonce::from_slice(nonce), dados)
}

/// `Aes256Gcm::new(chave).decrypt(nonce, cifrado)`: the message that the key and
/// nonce recover from `cifrado` when its tag authenticates it (`aes256gcm_abrir`),
/// an error otherwise; anything shorter than the tag is refused.
#[verifier::external_body]
fn aes256gcm_decifrar(chave: &[u8; 32], nonce: &[u8; 12], cifrado: &[u8]) -> (r: Result<Vec<u8>, aes_gcm::aead::Error>)
    ensures
        (match r {
            Ok(p) => aes256gcm_abrir(chave@, nonce@, cifrado@) == Some(p@),
            Err(_) => aes256gcm_abrir(chave@, nonce@, cifrado@) is None,
        }),
        cifrado@.len() < AES_GCM_TAG ==> r is Err,
{
    aes_gcm::Aes256Gcm::new(chave.into()).decrypt(aes_gcm::Nonce::from_slice(nonce), cifrado)
}

/// The text of an AES-GCM error: its `Display` writes `aead::Error`.
#[verifier::external_body]
fn texto_erro_aead(e: &aes_gcm::aead::Error) -> (r: String)
    ensures
        r@ == "aead::Error"@,
{
    e.to_string()
}

/// Encrypts `dados` with AES-256-GCM under `chave` and `nonce_bytes` (no associated
/// data): the ciphertext followed by the tag, or the error text for a message longer
/// than `AES_GCM_MAX_DADOS` bytes.
pub fn criptografar_aes_gcm(dados: &[u8], chave: &[u8; 32], nonce_bytes: &[u8; 12]) -> (r: Result<Vec<u8>, String>)
    ensures
        dados@.len() <= AES_GCM_MAX_DADOS ==> (r matches Ok(c) && c@ == aes256gcm_selar(chave@, nonce_bytes@, dados@)
            && c@.len() == dados@.len() + AES_GCM_TAG),
        dados@.len() > AES_GCM_MAX_DADOS ==> (r matches Err(m) && m@ == "aead::Error"@),
        // decrypting the ciphertext with the same key and nonce gives the message back
        r matches Ok(c) ==> resultado_decifrar(chave@, nonce_bytes@, c@) == Ok::<Seq<u8>, Seq<char>>(dados@),
{
    match aes256gcm_cifrar(chave, nonce_bytes, dados) {
        Ok(c) => Ok(c),
        Err(e) => Err(texto_erro_aead(&e)),
    }
}

/// Decrypts `cifrado` (ciphertext followed by tag) with AES-256-GCM under `chave` and
/// `nonce_bytes`: the message when the tag authenticates it, else the error text
/// (`resultado_decifrar`). What `criptografar_aes_gcm` produced with the same key and
/// nonce decrypts to the message it was given (see its `ensures`).
pub fn descriptografar_aes_gcm(cifrado: &[u8], chave: &[u8; 32], nonce_bytes: &[u8; 12]) -> (r: Result<Vec<u8>, String>)
    ensures
        (match r {
            Ok(p) => Ok(p@),
            Err(m) => Err(m@),
        }) == resultado_decifrar(chave@, nonce_bytes@, cifrado@),
        cifrado@.len() < AES_GCM_TAG ==> r is Err,
{
    match aes256gcm_decifrar(chave, nonce_bytes, cifrado) {
        Ok(p) => Ok(p),
        Err(e) => Err(texto_erro_aead(&e)),
    }
}

} // verus!
