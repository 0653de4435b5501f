//! Local language-model backend: model configuration, the checks that a model file
//! must pass, the (simulated) generation replies and the per-session context that
//! the C interface hands out.
use vstd::prelude::*;
use vstd::string::*;
use vstd::utf8::*;
use crate::numero::{decimal, decimal_com_sinal, formatar_inteiro};

verus! {

/// Number of coordinates of the embeddings of the local backend.
pub const DIMENSOES_EMBEDDING: usize = 384;

/// Number of tokens estimated for a text of `n` bytes (about four bytes per token).
pub open spec fn tokens_estimados(n: nat) -> nat {
    n / 4
}

/// Number of bytes of `s` in UTF-8 (what `str::len` returns).
pub open spec fn bytes_de(s: Seq<char>) -> nat {
    encode_utf8(s).len()
}

/// Error of a model path that names no file.
pub open spec fn msg_nao_encontrado(caminho: Seq<char>) -> Seq<char> {
    "Arquivo de modelo não encontrado: "@ + caminho
}

/// Error of a model file whose extension is not `gguf`.
pub open spec fn msg_formato(extensao: Seq<char>) -> Seq<char> {
    "Formato não suportado: ."@ + extensao + ". Use arquivos .gguf"@
}

/// Error of a generation request on a backend that is not ready.
pub open spec fn msg_nao_carregado() -> Seq<char> {
    "Modelo não carregado"@
}

/// Reply of the local backend to a prompt of `n` bytes.
pub open spec fn resposta_local(n: nat, max_tokens: int, temperatura: Seq<char>) -> Seq<char> {
    "[THZ-LLM Local] Prompt recebido ("@ + decimal(n) + " chars), max_tokens="@
        + decimal_com_sinal(max_tokens) + ", temp="@ + temperatura
        + ". Resposta simulada — integre llama.cpp para inferência real."@
}

/// What the local backend answers to a prompt of `n` bytes: the reply while its model
/// is ready (`modelo_valido`), else the not-loaded error.
pub open spec fn resposta_backend(modelo_valido: bool, n: nat, max_tokens: int, temperatura: Seq<char>) -> Result<
    Seq<char>,
    Seq<char>,
> {
    if modelo_valido {
        Ok(resposta_local(n, max_tokens, temperatura))
    } else {
        Err(msg_nao_carregado())
    }
}

/// Reply of a remote (API) context to a prompt of `n` bytes.
pub open spec fn resposta_api(n: nat) -> Seq<char> {
    "[THZ-LLM API] Resposta simulada para prompt de "@ + decimal(n) + " chars"@
}

/// The extension given by the path query, none counting as empty.
pub open spec fn extensao_ou_vazia(extensao: Option<Seq<char>>) -> Seq<char> {
    match extensao {
        Some(e) => e,
        None => Seq::empty(),
    }
}

/// What `thz_llm_gerar` makes of a prompt of `n` bytes for a context whose model path
/// is `caminho`, given what the file system answers: whether the path names a file,
/// and its extension. A remote context replies at once; a local one needs an
/// existing file with extension `gguf`, else it fails with the error text of the
/// first check that fails.
pub open spec fn resultado_gerar(
    caminho: Seq<char>,
    n: nat,
    max_tokens: int,
    temperatura: Seq<char>,
    existe: bool,
    extensao: Option<Seq<char>>,
) -> Result<Seq<char>, Seq<char>> {
    if e_api(caminho) {
        Ok(resposta_api(n))
    } else if !existe {
        Err(msg_nao_encontrado(caminho))
    } else if extensao_ou_vazia(extensao) != "gguf"@ {
        Err(msg_formato(extensao_ou_vazia(extensao)))
    } else {
        Ok(resposta_local(n, max_tokens, temperatura))
    }
}

/// Whether the path names a remote API (`api:` prefix).
pub open spec fn e_api(caminho: Seq<char>) -> bool {
    caminho.len() >= 4 && caminho.subrange(0, 4) == "api:"@
}

/// Model description of the local backend for a model file whose stem is `nome`.
pub open spec fn info_local(nome: Option<Seq<char>>) -> (Seq<char>, Seq<char>, Seq<char>, nat) {
    (
        match nome {
            Some(n) => n,
            None => "desconhecido"@,
        },
        "local"@,
        "llama.cpp"@,
        384,
    )
}

/// Text that `thz_llm_info_modelo` returns for a context with this configuration,
/// where `nome` is the stem of the model path: the type (`API` or `Local`), the
/// model's name (the API path, or the file stem) and, for a local model, its
/// provider and GPU layers.
pub open spec fn texto_info(caminho: Seq<char>, n_gpu_layers: int, nome: Option<Seq<char>>) -> Seq<char> {
    if e_api(caminho) {
        "API: "@ + caminho
    } else {
        "Local: "@ + info_local(nome).0 + " (provider="@ + info_local(nome).2 + ", gpu_layers="@
            + decimal_com_sinal(n_gpu_layers) + ")"@
    }
}

/// Configuration that a model is loaded with.
#[derive(Debug, Clone)]
pub struct ModeloConfig {
    pub caminho: String,
    pub n_gpu_layers: i32,
    pub n_ctx: i32,
    pub n_batch: i32,
    pub vocab_only: bool,
}

impl ModeloConfig {
    /// The default settings (no path, no GPU layers, a 2048-token context, batches of
    /// 512, full model) with the given path, GPU layers and context size.
    pub open spec fn com(caminho: Seq<char>, n_gpu_layers: i32, n_ctx: i32, c: ModeloConfig) -> bool {
        &&& c.caminho@ == caminho
        &&& c.n_gpu_layers == n_gpu_layers
        &&& c.n_ctx == n_ctx
        &&& c.n_batch == 512
        &&& !c.vocab_only
    }

    /// A copy of the configuration.
    pub fn copiar(&self) -> (r: ModeloConfig)
        ensures
            r == *self,
    {
        ModeloConfig {
            caminho: self.caminho.clone(),
            n_gpu_layers: self.n_gpu_layers,
            n_ctx: self.n_ctx,
            n_batch: self.n_batch,
            vocab_only: self.vocab_only,
        }
    }
}

impl Default for ModeloConfig {
    fn default() -> (r: ModeloConfig)
        ensures
            ModeloConfig::com(Seq::empty(), 0, 2048, r),
    {
        ModeloConfig {
            caminho: String::new(),
            n_gpu_layers: 0,
            n_ctx: 2048,
            n_batch: 512,
            vocab_only: false,
        }
    }
}

/// Description of a loaded model.
#[derive(Debug, Clone)]
pub struct ModeloInfo {
    pub nome: String,
    pub tipo: String,
    pub provider: String,
    pub dims_embedding: usize,
}

impl ModeloInfo {
    /// The description of the local backend for a model file whose stem is `nome`
    /// (`desconhecido` when there is none).
    pub fn local(nome: Option<String>) -> (r: ModeloInfo)
        ensures
            (r.nome@, r.tipo@, r.provider@, r.dims_embedding as nat) == info_local(
                match nome {
                    Some(n) => Some(n@),
                    None => None,
                },
            ),
    {
        let nome = match nome {
            Some(n) => n,
            None => String::from_str("desconhecido"),
        };
        ModeloInfo {
            nome,
            tipo: String::from_str("local"),
            provider: String::from_str("llama.cpp"),
            dims_embedding: DIMENSOES_EMBEDDING,
        }
    }
}

/// Whether `t` occurs in `s` as a run of consecutive characters.
pub open spec fn contem(s: Seq<char>, t: Seq<char>) -> bool {
    exists|i: int| 0 <= i && i + t.len() <= s.len() && #[trigger] s.subrange(i, i + t.len()) == t
}

/// A path that is a single plain file name on every platform: not empty, with no
/// separator (`/`, `\`), no `:` (of a Windows prefix) and no `.`.
pub open spec fn caminho_simples(s: Seq<char>) -> bool {
    &&& s.len() > 0
    &&& forall|i: int|
        0 <= i < s.len() ==> #[trigger] s[i] != '/' && s[i] != '\\' && s[i] != ':' && s[i] != '.'
}

/// Index of the last `.` of `s`, or `-1` when there is none.
pub open spec fn ultimo_ponto(s: Seq<char>) -> int
    decreases s.len(),
{
    if s.len() == 0 {
        -1
    } else if s.last() == '.' {
        s.len() - 1
    } else {
        ultimo_ponto(s.drop_last())
    }
}

/// A path whose extension is plain to see on every platform: it has no `\\` and no
/// `:` (so no Windows prefix, and `/` is its only separator), its last `.` comes
/// after a character other than `/`, and is followed by at least one character and
/// no `/`.
pub open spec fn extensao_clara(s: Seq<char>) -> bool {
    let i = ultimo_ponto(s);
    &&& 1 <= i < s.len() - 1
    &&& s[i - 1] != '/'
    &&& forall|j: int| i < j < s.len() ==> #[trigger] s[j] != '/'
    &&& forall|j: int| 0 <= j < s.len() ==> #[trigger] s[j] != '\\' && s[j] != ':'
}

/// What follows the last `.` of `s`.
pub open spec fn extensao_visivel(s: Seq<char>) -> Seq<char> {
    s.subrange(ultimo_ponto(s) + 1, s.len() as int)
}

/// `Path::new(caminho).exists()`: asks the file system whether the path names
/// something, so the answer depends on the machine and the moment. What holds on
/// every platform: the empty path names nothing.
#[verifier::external_body]
fn caminho_existe(caminho: &str) -> (r: bool)
    ensures
        caminho@.len() == 0 ==> !r,
{
    std::path::Path::new(caminho).exists()
}

/// `Path::new(caminho).extension()` as text. How a path splits into components
/// differs between platforms; what holds on every platform, as std documents it:
/// the extension is the part of the file name after its last `.`, so `.` followed
/// by it occurs in the path; a path with no file name (the empty one) or with no
/// `.` in it has none. For a path of `extensao_clara` the file name is what follows
/// the last `/`; it holds the last `.` after another character, so it is neither
/// `.` nor `..` and does not start with a lone `.`, and its extension is what
/// follows the last `.` of the path.
#[verifier::external_body]
fn extensao_do_caminho(caminho: &str) -> (r: Option<String>)
    ensures
        caminho@.len() == 0 ==> r is None,
        r matches Some(e) ==> contem(caminho@, "."@ + e@),
        caminho_simples(caminho@) ==> r is None,
        extensao_clara(caminho@) ==> r is Some,
        r matches Some(e) ==> (extensao_clara(caminho@) ==> e@ == extensao_visivel(caminho@)),
{
    let ext = std::path::Path::new(caminho).extension()?;
    Some(ext.to_str()?.to_string())
}

/// `Path::new(caminho).file_stem()` as text. How a path splits into components
/// differs between platforms; what holds on every platform, as std documents it:
/// the stem is a part of the file name, itself a part of the path; the empty path
/// has no file name, hence no stem; and a path that is a single plain name with no
/// `.` is its own file name and its own stem.
#[verifier::external_body]
fn nome_base_do_caminho(caminho: &str) -> (r: Option<String>)
    ensures
        caminho@.len() == 0 ==> r is None,
        r matches Some(n) ==> contem(caminho@, n@),
        caminho_simples(caminho@) ==> r is Some,
        r matches Some(n) ==> (caminho_simples(caminho@) ==> n@ == caminho@),
{
    let nome = std::path::Path::new(caminho).file_stem()?;
    Some(nome.to_str()?.to_string())
}

/// Whether `s` starts with `api:`.
pub fn comeca_com_api(s: &str) -> (r: bool)
    ensures
        r == e_api(s@),
{
    proof {
        reveal_strlit("api:");
    }
    if s.unicode_len() < 4 {
        return false;
    }
    let r = s.get_char(0) == 'a' && s.get_char(1) == 'p' && s.get_char(2) == 'i' && s.get_char(3) == ':';
    proof {
        if r {
            assert(s@.subrange(0, 4) =~= "api:"@);
        } else {
            assert(s@.subrange(0, 4) != "api:"@ ) by {
                if s@.subrange(0, 4) == "api:"@ {
                    assert(s@.subrange(0, 4)[0] == s@[0]);
                    assert(s@.subrange(0, 4)[1] == s@[1]);
                    assert(s@.subrange(0, 4)[2] == s@[2]);
                    assert(s@.subrange(0, 4)[3] == s@[3]);
                }
            }
        }
    }
    r
}

/// `a` followed by `b`.
fn juntar(a: &str, b: &str) -> (r: String)
    ensures
        r@ == a@ + b@,
{
    let mut s = String::from_str(a);
    s.append(b);
    s
}

/// The error text of a model path that names no file.
pub fn erro_nao_encontrado(caminho: &str) -> (r: String)
    ensures
        r@ == msg_nao_encontrado(caminho@),
{
    juntar("Arquivo de modelo não encontrado: ", caminho)
}

/// The error text of a model file whose extension is `extensao`.
pub fn erro_formato(extensao: &str) -> (r: String)
    ensures
        r@ == msg_formato(extensao@),
{
    let mut s = juntar("Formato não suportado: .", extensao);
    s.append(". Use arquivos .gguf");
    s
}

proof fn lema_gguf()
    ensures
        "."@ + "gguf"@ == ".gguf"@,
        "gguf"@.len() == 4,
{
    reveal_strlit(".");
    reveal_strlit("gguf");
    reveal_strlit(".gguf");
    assert("."@ + "gguf"@ =~= ".gguf"@);
}

/// Local backend (llama.cpp): a model file that passed the checks of `novo`.
#[derive(Debug)]
pub struct LocalBackend {
    pub config: ModeloConfig,
    pub modelo_valido: bool,
}

impl LocalBackend {
    /// The checks of `novo` with their outside answers given: the model file must
    /// exist, and its extension (none counting as empty) must be `gguf`.
    pub fn validar(config: ModeloConfig, existe: bool, extensao: Option<&str>) -> (r: Result<LocalBackend, String>)
        ensures
            ({
                let ext = match extensao {
                    Some(e) => e@,
                    None => Seq::<char>::empty(),
                };
                match r {
                    Ok(b) => existe && ext == "gguf"@ && b.config == config && b.modelo_valido,
                    Err(m) => if !existe {
                        m@ == msg_nao_encontrado(config.caminho@)
                    } else {
                        ext != "gguf"@ && m@ == msg_formato(ext)
                    },
                }
            }),
    {
        if !existe {
            return Err(erro_nao_encontrado(config.caminho.as_str()));
        }
        let ext: &str = match extensao {
            Some(e) => e,
            None => "",
        };
        proof {
            reveal_strlit("");
            assert(""@ =~= Seq::<char>::empty());
            assert(ext@ == (match extensao {
                Some(e) => e@,
                None => Seq::<char>::empty(),
            }));
        }
        let igual = String::from_str(ext) == String::from_str("gguf");
        if !igual {
            return Err(erro_formato(ext));
        }
        Ok(LocalBackend { config, modelo_valido: true })
    }

    /// Opens the model of `config`: fails when the path names no file or the file's
    /// extension is not `gguf`, with the error text of each case.
    pub fn novo(config: ModeloConfig) -> (r: Result<LocalBackend, String>)
        ensures
            r matches Ok(b) ==> b.config == config && b.modelo_valido,
            r matches Err(m) ==> m@ == msg_nao_encontrado(config.caminho@) || exists|e: Seq<char>|
                e != "gguf"@ && m@ == #[trigger] msg_formato(e),
            config.caminho@.len() == 0 ==> (r matches Err(m) && m@ == msg_nao_encontrado(config.caminho@)),
            // only a path that holds `.gguf` is accepted
            r is Ok ==> contem(config.caminho@, ".gguf"@),
            caminho_simples(config.caminho@) ==> r is Err,
            // a path that plainly ends in `.gguf` opens unless it names no file
            extensao_clara(config.caminho@) && extensao_visivel(config.caminho@) == "gguf"@ ==> (r is Ok || (
            r matches Err(m) && m@ == msg_nao_encontrado(config.caminho@))),
            // a format error names the path's own extension
            r matches Err(m) ==> (extensao_clara(config.caminho@) ==> m@ == msg_nao_encontrado(config.caminho@)
                || (extensao_visivel(config.caminho@) != "gguf"@ && m@ == msg_formato(
                extensao_visivel(config.caminho@),
            ))),
    {
        proof {
            lema_gguf();
        }
        let existe = caminho_existe(config.caminho.as_str());
        let extensao = extensao_do_caminho(config.caminho.as_str());
        let r = match &extensao {
            Some(e) => Self::validar(config, existe, Some(e.as_str())),
            None => Self::validar(config, existe, None),
        };
        r
    }

    /// Name of the backend.
    pub fn nome(&self) -> (r: &'static str)
        ensures
            r@ == "llama.cpp (local)"@,
    {
        "llama.cpp (local)"
    }

    /// The (simulated) reply to `prompt`, given the request's token limit and its
    /// temperature already written as text; fails when the model is not ready.
    pub fn gerar_interno(&self, prompt: &str, max_tokens: i32, temperatura: &str) -> (r: Result<String, String>)
        ensures
            self.modelo_valido ==> (r matches Ok(t) && t@ == resposta_local(
                bytes_de(prompt@),
                max_tokens as int,
                temperatura@,
            )),
            !self.modelo_valido ==> (r matches Err(m) && m@ == msg_nao_carregado()),
            (match r {
                Ok(t) => Ok(t@),
                Err(m) => Err(m@),
            }) == resposta_backend(self.modelo_valido, bytes_de(prompt@), max_tokens as int, temperatura@),
    {
        if !self.modelo_valido {
            return Err(String::from_str("Modelo não carregado"));
        }
        let mut s = String::from_str("[THZ-LLM Local] Prompt recebido (");
        let n = formatar_inteiro(prompt.as_bytes().len() as i128);
        s.append(n.as_str());
        s.append(" chars), max_tokens=");
        let m = formatar_inteiro(max_tokens as i128);
        s.append(m.as_str());
        s.append(", temp=");
        s.append(temperatura);
        s.append(". Resposta simulada — integre llama.cpp para inferência real.");
        proof {
            assert(s@ =~= resposta_local(bytes_de(prompt@), max_tokens as int, temperatura@));
        }
        Ok(s)
    }

    /// The backend's answer to a generation request (the `LlmBackend::gerar` of the
    /// local backend): the reply of `gerar_interno`; asking changes nothing.
    pub fn gerar(&mut self, prompt: &str, max_tokens: i32, temperatura: &str) -> (r: Result<String, String>)
        ensures
            *final(self) == *old(self),
            (match r {
                Ok(t) => Ok(t@),
                Err(m) => Err(m@),
            }) == resposta_backend(old(self).modelo_valido, bytes_de(prompt@), max_tokens as int, temperatura@),
    {
        self.gerar_interno(prompt, max_tokens, temperatura)
    }

    /// Estimated number of tokens of `texto`: its byte length divided by four.
    pub fn token_count(&self, texto: &str) -> (r: usize)
        ensures
            r == tokens_estimados(bytes_de(texto@)),
    {
        texto.as_bytes().len() / 4
    }

    /// Description of the loaded model, named after the stem of the model path.
    pub fn modelo_info(&self) -> (r: ModeloInfo)
        ensures
            exists|nome: Option<Seq<char>>|
                (r.nome@, r.tipo@, r.provider@, r.dims_embedding as nat) == #[trigger] info_local(nome) && (
                nome matches Some(n) ==> contem(self.config.caminho@, n)),
            self.config.caminho@.len() == 0 ==> (r.nome@, r.tipo@, r.provider@, r.dims_embedding as nat)
                == info_local(None),
            caminho_simples(self.config.caminho@) ==> (r.nome@, r.tipo@, r.provider@, r.dims_embedding as nat)
                == info_local(Some(self.config.caminho@)),
    {
        ModeloInfo::local(nome_base_do_caminho(self.config.caminho.as_str()))
    }

    /// Closes the backend: it no longer generates.
    pub fn fechar(&mut self)
        ensures
            final(self).config == old(self).config,
            !final(self).modelo_valido,
    {
        self.modelo_valido = false;
    }
}

/// A closed backend refuses every request: after `fechar` (which keeps the
/// configuration and clears `modelo_valido`), whatever the prompt, token limit and
/// temperature, the answer is the not-loaded error; while the backend was open,
/// every request got a reply. Asking does not change the backend (`gerar_interno`
/// takes it by shared reference).
pub proof fn lei_backend_fechado_recusa(
    antes: LocalBackend,
    depois: LocalBackend,
    n: nat,
    max_tokens: int,
    temperatura: Seq<char>,
)
    requires
        depois.config == antes.config,
        !depois.modelo_valido,
    ensures
        resposta_backend(depois.modelo_valido, n, max_tokens, temperatura) == Err::<Seq<char>, Seq<char>>(
            msg_nao_carregado(),
        ),
        antes.modelo_valido ==> resposta_backend(antes.modelo_valido, n, max_tokens, temperatura) is Ok,
{
}

/// Per-session state of a language-model handle.
#[derive(Debug)]
pub struct ThzLlmContext {
    pub config: ModeloConfig,
    pub modelo_carregado: bool,
    pub n_tokens_gerados: u64,
    pub memoria_ativa: bool,
}

impl ThzLlmContext {
    /// A fresh context: nothing loaded, nothing generated, memory on.
    pub fn novo(config: ModeloConfig) -> (r: ThzLlmContext)
        ensures
            r.config == config,
            !r.modelo_carregado,
            r.n_tokens_gerados == 0,
            r.memoria_ativa,
    {
        ThzLlmContext { config, modelo_carregado: false, n_tokens_gerados: 0, memoria_ativa: true }
    }

    /// Context of a local model at `caminho`: the default configuration with that
    /// path, GPU layers and context size, loaded when the model file passes the
    /// checks of `LocalBackend::novo`; otherwise the error text comes along.
    pub fn carregar_local(caminho: &str, n_gpu_layers: i32, n_ctx: i32) -> (r: (ThzLlmContext, Option<String>))
        ensures
            ModeloConfig::com(caminho@, n_gpu_layers, n_ctx, r.0.config),
            r.0.n_tokens_gerados == 0,
            r.0.memoria_ativa,
            r.0.modelo_carregado <==> r.1 is None,
            r.1 matches Some(m) ==> m@ == msg_nao_encontrado(caminho@) || exists|e: Seq<char>|
                e != "gguf"@ && m@ == #[trigger] msg_formato(e),
            caminho@.len() == 0 ==> !r.0.modelo_carregado,
            caminho@.len() == 0 ==> (r.1 matches Some(m) && m@ == msg_nao_encontrado(caminho@)),
            r.0.modelo_carregado ==> contem(caminho@, ".gguf"@),
            extensao_clara(caminho@) && extensao_visivel(caminho@) == "gguf"@ ==> (r.0.modelo_carregado || (
            r.1 matches Some(m) && m@ == msg_nao_encontrado(caminho@))),
            r.1 matches Some(m) ==> (extensao_clara(caminho@) ==> m@ == msg_nao_encontrado(caminho@) || (
            extensao_visivel(caminho@) != "gguf"@ && m@ == msg_formato(extensao_visivel(caminho@)))),
    {
        let padrao = ModeloConfig::default();
        let config = ModeloConfig { caminho: String::from_str(caminho), n_gpu_layers, n_ctx, ..padrao };
        let mut ctx = ThzLlmContext::novo(config.copiar());
        match LocalBackend::novo(config) {
            Ok(_) => {
                ctx.modelo_carregado = true;
                (ctx, None)
            },
            Err(e) => {
                ctx.modelo_carregado = false;
                (ctx, Some(e))
            },
        }
    }

    /// Context of a remote API at `url`: the default configuration with the path
    /// `api:<url>`, marked as loaded.
    pub fn carregar_api(url: &str) -> (r: ThzLlmContext)
        ensures
            ModeloConfig::com("api:"@ + url@, 0, 2048, r.config),
            r.modelo_carregado,
            r.n_tokens_gerados == 0,
            r.memoria_ativa,
    {
        let padrao = ModeloConfig::default();
        let config = ModeloConfig { caminho: juntar("api:", url), ..padrao };
        let mut ctx = ThzLlmContext::novo(config);
        ctx.modelo_carregado = true;
        ctx
    }

    /// The reply to `prompt` (`thz_llm_gerar`), given what the file system answers
    /// for a local model path (whether it names a file, and its extension; both are
    /// ignored for a remote context). The temperature comes written as text.
    pub fn gerar_com(
        &self,
        prompt: &str,
        max_tokens: i32,
        temperatura: &str,
        existe: bool,
        extensao: Option<&str>,
    ) -> (r: Result<String, String>)
        ensures
            (match r {
                Ok(t) => Ok(t@),
                Err(m) => Err(m@),
            }) == resultado_gerar(
                self.config.caminho@,
                bytes_de(prompt@),
                max_tokens as int,
                temperatura@,
                existe,
                match extensao {
                    Some(e) => Some(e@),
                    None => None,
                },
            ),
    {
        if comeca_com_api(self.config.caminho.as_str()) {
            let mut s = String::from_str("[THZ-LLM API] Resposta simulada para prompt de ");
            let n = formatar_inteiro(prompt.as_bytes().len() as i128);
            s.append(n.as_str());
            s.append(" chars");
            proof {
                assert(s@ =~= resposta_api(bytes_de(prompt@)));
            }
            Ok(s)
        } else {
            match LocalBackend::validar(self.config.copiar(), existe, extensao) {
                Ok(backend) => backend.gerar_interno(prompt, max_tokens, temperatura),
                Err(e) => Err(e),
            }
        }
    }

    /// The reply to `prompt` (`thz_llm_gerar`): a remote context answers at once; a
    /// local one asks the file system about its model file and replies as
    /// `gerar_com` does with those answers. The temperature comes written as text.
    pub fn gerar(&self, prompt: &str, max_tokens: i32, temperatura: &str) -> (r: Result<String, String>)
        ensures
            exists|existe: bool, extensao: Option<Seq<char>>|
                (match r {
                    Ok(t) => Ok(t@),
                    Err(m) => Err(m@),
                }) == #[trigger] resultado_gerar(
                    self.config.caminho@,
                    bytes_de(prompt@),
                    max_tokens as int,
                    temperatura@,
                    existe,
                    extensao,
                ) && (extensao matches Some(e) ==> contem(self.config.caminho@, "."@ + e)) && (caminho_simples(
                    self.config.caminho@,
                ) ==> extensao is None) && (extensao_clara(self.config.caminho@) ==> extensao == Some(
                    extensao_visivel(self.config.caminho@),
                )),
            e_api(self.config.caminho@) ==> (r matches Ok(t) && t@ == resposta_api(bytes_de(prompt@))),
            self.config.caminho@.len() == 0 ==> (r matches Err(m) && m@ == msg_nao_encontrado(self.config.caminho@)),
            // a local model replies only when its path holds `.gguf`
            !e_api(self.config.caminho@) && r is Ok ==> contem(self.config.caminho@, ".gguf"@),
            // a local path that plainly ends in `.gguf` gets the local reply unless it
            // names no file
            !e_api(self.config.caminho@) && extensao_clara(self.config.caminho@) && extensao_visivel(
                self.config.caminho@,
            ) == "gguf"@ ==> ((r matches Ok(t) && t@ == resposta_local(
                bytes_de(prompt@),
                max_tokens as int,
                temperatura@,
            )) || (r matches Err(m) && m@ == msg_nao_encontrado(self.config.caminho@))),
            // a local path with any other plain extension is refused, the format error
            // naming that extension
            !e_api(self.config.caminho@) && extensao_clara(self.config.caminho@) && extensao_visivel(
                self.config.caminho@,
            ) != "gguf"@ ==> (r matches Err(m) && (m@ == msg_nao_encontrado(self.config.caminho@) || m@
                == msg_formato(extensao_visivel(self.config.caminho@)))),
    {
        proof {
            lema_gguf();
        }
        if comeca_com_api(self.config.caminho.as_str()) {
            proof {
                reveal_strlit("api:");
                let c = self.config.caminho@;
                assert(c.subrange(0, 4)[3] == ':');
                assert(c[3] == ':');
                assert(!extensao_clara(c));
            }
            self.gerar_com(prompt, max_tokens, temperatura, false, None)
        } else {
            let existe = caminho_existe(self.config.caminho.as_str());
            let extensao = extensao_do_caminho(self.config.caminho.as_str());
            match &extensao {
                Some(e) => self.gerar_com(prompt, max_tokens, temperatura, existe, Some(e.as_str())),
                None => self.gerar_com(prompt, max_tokens, temperatura, existe, None),
            }
        }
    }

    /// Counts the estimated tokens of a generated `texto` into the session total.
    pub fn registrar_tokens(&mut self, texto: &str)
        requires
            old(self).n_tokens_gerados + tokens_estimados(bytes_de(texto@)) <= u64::MAX,
        ensures
            final(self).n_tokens_gerados == old(self).n_tokens_gerados + tokens_estimados(bytes_de(texto@)),
            final(self).config == old(self).config,
            final(self).modelo_carregado == old(self).modelo_carregado,
            final(self).memoria_ativa == old(self).memoria_ativa,
    {
        let n = (texto.as_bytes().len() / 4) as u64;
        self.n_tokens_gerados = self.n_tokens_gerados + n;
    }

    /// How many embedding coordinates `thz_llm_embedding` fills for a request of
    /// `dims`: it opens the model file anew, see `coordenadas_embedding_com`.
    pub fn coordenadas_embedding(&self, dims: usize) -> (r: usize)
        ensures
            r == dims || r == (if dims < DIMENSOES_EMBEDDING { dims } else { DIMENSOES_EMBEDDING }),
            self.config.caminho@.len() == 0 ==> r == dims,
            caminho_simples(self.config.caminho@) ==> r == dims,
    {
        let aberto = LocalBackend::novo(self.config.copiar());
        coordenadas_embedding_com(dims, aberto.is_ok())
    }
}

/// How many embedding coordinates `thz_llm_embedding` fills for a request of `dims`
/// when the model file did (`modelo_ok`) or did not pass the checks: the backend's
/// embedding has 384 coordinates, the fallback has `dims`, and no more than `dims`
/// are written.
pub fn coordenadas_embedding_com(dims: usize, modelo_ok: bool) -> (r: usize)
    ensures
        r == (if modelo_ok && dims > DIMENSOES_EMBEDDING { DIMENSOES_EMBEDDING } else { dims }),
{
    if modelo_ok && dims > DIMENSOES_EMBEDDING {
        DIMENSOES_EMBEDDING
    } else {
        dims
    }
}

/// Text about the model of a handle (`thz_llm_info_modelo`), given the stem of its
/// path: a fixed notice for no handle, the API path for a remote one, else the
/// model name, its provider and its GPU layers.
pub fn texto_info_modelo(ctx: Option<&ThzLlmContext>, nome: Option<&str>) -> (r: String)
    ensures
        r@ == (match ctx {
            None => "Nenhum modelo carregado"@,
            Some(c) => texto_info(c.config.caminho@, c.config.n_gpu_layers as int, match nome {
                Some(n) => Some(n@),
                None => None,
            }),
        }),
{
    match ctx {
        None => String::from_str("Nenhum modelo carregado"),
        Some(c) => {
            if comeca_com_api(c.config.caminho.as_str()) {
                juntar("API: ", c.config.caminho.as_str())
            } else {
                let nome: &str = match nome {
                    Some(n) => n,
                    None => "desconhecido",
                };
                let mut s = juntar("Local: ", nome);
                s.append(" (provider=");
                s.append("llama.cpp");
                s.append(", gpu_layers=");
                let g = formatar_inteiro(c.config.n_gpu_layers as i128);
                s.append(g.as_str());
                s.append(")");
                s
            }
        },
    }
}

/// Text about the model of a handle (`thz_llm_info_modelo`), naming a local model
/// after the stem of its path.
pub fn thz_llm_info_modelo(ctx: Option<&ThzLlmContext>) -> (r: String)
    ensures
        ctx is None ==> r@ == "Nenhum modelo carregado"@,
        ctx matches Some(c) ==> (e_api(c.config.caminho@) ==> r@ == "API: "@ + c.config.caminho@),
        ctx matches Some(c) ==> exists|nome: Option<Seq<char>>|
            r@ == #[trigger] texto_info(c.config.caminho@, c.config.n_gpu_layers as int, nome) && (
            nome matches Some(n) ==> contem(c.config.caminho@, n)),
        ctx matches Some(c) ==> (caminho_simples(c.config.caminho@) ==> r@ == texto_info(
            c.config.caminho@,
            c.config.n_gpu_layers as int,
            Some(c.config.caminho@),
        )),
        ctx matches Some(c) ==> (c.config.caminho@.len() == 0 ==> r@ == texto_info(
            c.config.caminho@,
            c.config.n_gpu_layers as int,
            None,
        )),
{
    match ctx {
        None => texto_info_modelo(None, None),
        Some(c) => {
            let nome = nome_base_do_caminho(c.config.caminho.as_str());
            match &nome {
                Some(n) => texto_info_modelo(Some(c), Some(n.as_str())),
                None => texto_info_modelo(Some(c), None),
            }
        },
    }
}

/// Tokens estimated for a run of generated texts, one after the other.
pub open spec fn total_tokens(textos: Seq<Seq<char>>) -> nat
    decreases textos.len(),
{
    if textos.len() == 0 {
        0
    } else {
        total_tokens(textos.drop_last()) + tokens_estimados(bytes_de(textos.last()))
    }
}

/// A session's token count is the sum of the tokens of the replies counted into it:
/// starting from a freshly loaded handle (count 0), each `registrar_tokens` of a
/// text adds that text's tokens, so after the texts `textos` the count is
/// `total_tokens(textos)`. The states `sessao` are the handle before the first and
/// after each call.
pub proof fn lei_total_da_sessao(sessao: Seq<ThzLlmContext>, textos: Seq<Seq<char>>)
    requires
        sessao.len() == textos.len() + 1,
        sessao[0].n_tokens_gerados == 0,
        forall|j: int|
            0 <= j < textos.len() ==> sessao[j + 1].n_tokens_gerados == sessao[j].n_tokens_gerados
                + tokens_estimados(bytes_de(#[trigger] textos[j])),
    ensures
        sessao.last().n_tokens_gerados == total_tokens(textos),
    decreases textos.len(),
{
    if textos.len() > 0 {
        let k = textos.len() - 1;
        assert(sessao[k + 1].n_tokens_gerados == sessao[k].n_tokens_gerados + tokens_estimados(
            bytes_de(textos[k]),
        ));
        lei_total_da_sessao(sessao.drop_last(), textos.drop_last());
    }
}

/// Tokens generated so far in a handle's session; 0 for no handle.
pub fn thz_llm_tokens_gerados(ctx: Option<&ThzLlmContext>) -> (r: u64)
    ensures
        r == (match ctx {
            None => 0u64,
            Some(c) => c.n_tokens_gerados,
        }),
{
    match ctx {
        None => 0,
        Some(c) => c.n_tokens_gerados,
    }
}

} // verus!
