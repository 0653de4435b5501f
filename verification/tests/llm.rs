use thz_runtime::llm::{
    comeca_com_api, coordenadas_embedding_com, texto_info_modelo, thz_llm_info_modelo, thz_llm_tokens_gerados, LocalBackend,
    ModeloConfig, ModeloInfo, ThzLlmContext, DIMENSOES_EMBEDDING,
};

fn config(caminho: &str) -> ModeloConfig {
    ModeloConfig { caminho: caminho.to_string(), ..ModeloConfig::default() }
}

#[test]
fn configuracao_padrao() {
    let c = ModeloConfig::default();
    assert_eq!(c.caminho, "");
    assert_eq!(c.n_gpu_layers, 0);
    assert_eq!(c.n_ctx, 2048);
    assert_eq!(c.n_batch, 512);
    assert!(!c.vocab_only);
    let d = c.copiar();
    assert_eq!(d.n_ctx, 2048);
}

#[test]
fn validar_arquivo_inexistente() {
    let r = LocalBackend::validar(config("/modelos/x.gguf"), false, Some("gguf"));
    assert_eq!(r.unwrap_err(), "Arquivo de modelo não encontrado: /modelos/x.gguf");
}

#[test]
fn validar_extensao_errada() {
    let r = LocalBackend::validar(config("m.bin"), true, Some("bin"));
    assert_eq!(r.unwrap_err(), "Formato não suportado: .bin. Use arquivos .gguf");
    let r = LocalBackend::validar(config("m"), true, None);
    assert_eq!(r.unwrap_err(), "Formato não suportado: .. Use arquivos .gguf");
    let r = LocalBackend::validar(config("m.GGUF"), true, Some("GGUF"));
    assert!(r.is_err());
}

#[test]
fn validar_modelo_gguf() {
    let b = LocalBackend::validar(config("m.gguf"), true, Some("gguf")).unwrap();
    assert!(b.modelo_valido);
    assert_eq!(b.config.caminho, "m.gguf");
}

#[test]
fn novo_consulta_o_disco() {
    let r = LocalBackend::novo(config("/caminho/que/nao/existe/modelo.gguf"));
    assert_eq!(
        r.unwrap_err(),
        "Arquivo de modelo não encontrado: /caminho/que/nao/existe/modelo.gguf"
    );
    let r = LocalBackend::novo(config("/"));
    assert_eq!(r.unwrap_err(), "Formato não suportado: .. Use arquivos .gguf");
}

#[test]
fn resposta_local() {
    let mut b = LocalBackend::validar(config("m.gguf"), true, Some("gguf")).unwrap();
    assert_eq!(b.nome(), "llama.cpp (local)");
    let t = b.gerar_interno("olá", 512, "0.8").unwrap();
    assert_eq!(
        t,
        "[THZ-LLM Local] Prompt recebido (4 chars), max_tokens=512, temp=0.8. Resposta simulada — integre llama.cpp para inferência real."
    );
    let t = b.gerar_interno("", -3, "1").unwrap();
    assert!(t.contains("(0 chars), max_tokens=-3, temp=1."));
    b.fechar();
    assert!(!b.modelo_valido);
    assert_eq!(b.gerar_interno("x", 1, "0.5").unwrap_err(), "Modelo não carregado");
}

#[test]
fn contagem_de_tokens() {
    let b = LocalBackend::validar(config("m.gguf"), true, Some("gguf")).unwrap();
    assert_eq!(b.token_count(""), 0);
    assert_eq!(b.token_count("abc"), 0);
    assert_eq!(b.token_count("abcdefgh"), 2);
    assert_eq!(b.token_count("olá!"), 1);
}

#[test]
fn informacao_do_modelo() {
    let b = LocalBackend::validar(config("/modelos/llama-7b.q4.gguf"), true, Some("gguf")).unwrap();
    let info = b.modelo_info();
    assert_eq!(info.nome, "llama-7b.q4");
    assert_eq!(info.tipo, "local");
    assert_eq!(info.provider, "llama.cpp");
    assert_eq!(info.dims_embedding, 384);
    let i = ModeloInfo::local(None);
    assert_eq!(i.nome, "desconhecido");
    assert_eq!(DIMENSOES_EMBEDDING, 384);
}

#[test]
fn prefixo_api() {
    assert!(comeca_com_api("api:https://exemplo"));
    assert!(comeca_com_api("api:"));
    assert!(!comeca_com_api("api"));
    assert!(!comeca_com_api("apí:x"));
    assert!(!comeca_com_api("/api:x"));
}

#[test]
fn contexto_novo() {
    let c = ThzLlmContext::novo(config("m.gguf"));
    assert!(!c.modelo_carregado);
    assert_eq!(c.n_tokens_gerados, 0);
    assert!(c.memoria_ativa);
}

#[test]
fn carregar_modelo_local_inexistente() {
    let (ctx, erro) = ThzLlmContext::carregar_local("/nao/existe.gguf", 3, 1024);
    assert!(!ctx.modelo_carregado);
    assert_eq!(ctx.config.caminho, "/nao/existe.gguf");
    assert_eq!(ctx.config.n_gpu_layers, 3);
    assert_eq!(ctx.config.n_ctx, 1024);
    assert_eq!(ctx.config.n_batch, 512);
    assert_eq!(erro.unwrap(), "Arquivo de modelo não encontrado: /nao/existe.gguf");
    assert_eq!(ctx.coordenadas_embedding(1000), 1000);
    assert_eq!(
        ctx.gerar("oi", 10, "0.8").unwrap_err(),
        "Arquivo de modelo não encontrado: /nao/existe.gguf"
    );
}

#[test]
fn contexto_de_api() {
    let mut ctx = ThzLlmContext::carregar_api("https://exemplo/v1");
    assert!(ctx.modelo_carregado);
    assert_eq!(ctx.config.caminho, "api:https://exemplo/v1");
    assert_eq!(ctx.config.n_ctx, 2048);
    let t = ctx.gerar("olá", 100, "0.7").unwrap();
    assert_eq!(t, "[THZ-LLM API] Resposta simulada para prompt de 4 chars");
    ctx.registrar_tokens(&t);
    assert_eq!(ctx.n_tokens_gerados, (t.len() / 4) as u64);
    ctx.registrar_tokens("abcdefgh");
    assert_eq!(thz_llm_tokens_gerados(Some(&ctx)), (t.len() / 4) as u64 + 2);
    assert_eq!(thz_llm_tokens_gerados(None), 0);
    assert_eq!(thz_llm_info_modelo(Some(&ctx)), "API: api:https://exemplo/v1");
}

#[test]
fn texto_sobre_o_modelo() {
    assert_eq!(thz_llm_info_modelo(None), "Nenhum modelo carregado");
    let mut c = config("/modelos/llama-7b.gguf");
    c.n_gpu_layers = 12;
    let ctx = ThzLlmContext::novo(c);
    assert_eq!(thz_llm_info_modelo(Some(&ctx)), "Local: llama-7b (provider=llama.cpp, gpu_layers=12)");
    assert_eq!(texto_info_modelo(Some(&ctx), None), "Local: desconhecido (provider=llama.cpp, gpu_layers=12)");
    assert_eq!(texto_info_modelo(Some(&ctx), Some("x")), "Local: x (provider=llama.cpp, gpu_layers=12)");
    assert_eq!(texto_info_modelo(None, Some("x")), "Nenhum modelo carregado");
}

#[test]
fn coordenadas_do_embedding() {
    assert_eq!(coordenadas_embedding_com(1000, true), 384);
    assert_eq!(coordenadas_embedding_com(100, true), 100);
    assert_eq!(coordenadas_embedding_com(1000, false), 1000);
}

#[test]
fn gerar_com_as_respostas_do_disco() {
    let ctx = ThzLlmContext::novo(config("/modelos/m.gguf"));
    assert_eq!(
        ctx.gerar_com("olá", 512, "0.8", true, Some("gguf")).unwrap(),
        "[THZ-LLM Local] Prompt recebido (4 chars), max_tokens=512, temp=0.8. Resposta simulada — integre llama.cpp para inferência real."
    );
    assert_eq!(
        ctx.gerar_com("olá", 512, "0.8", false, Some("gguf")).unwrap_err(),
        "Arquivo de modelo não encontrado: /modelos/m.gguf"
    );
    assert_eq!(
        ctx.gerar_com("olá", 512, "0.8", true, Some("bin")).unwrap_err(),
        "Formato não suportado: .bin. Use arquivos .gguf"
    );
    assert_eq!(
        ctx.gerar_com("olá", 512, "0.8", true, None).unwrap_err(),
        "Formato não suportado: .. Use arquivos .gguf"
    );
    let api = ThzLlmContext::carregar_api("u");
    assert_eq!(
        api.gerar_com("abc", 1, "1", false, None).unwrap(),
        "[THZ-LLM API] Resposta simulada para prompt de 3 chars"
    );
}

#[test]
fn caminho_vazio() {
    assert_eq!(LocalBackend::novo(config("")).unwrap_err(), "Arquivo de modelo não encontrado: ");
    let (ctx, erro) = ThzLlmContext::carregar_local("", 0, 2048);
    assert!(!ctx.modelo_carregado);
    assert_eq!(erro.unwrap(), "Arquivo de modelo não encontrado: ");
    assert_eq!(thz_llm_info_modelo(Some(&ctx)), "Local: desconhecido (provider=llama.cpp, gpu_layers=0)");
}

#[test]
fn sessao_soma_os_tokens_das_respostas() {
    let mut ctx = ThzLlmContext::carregar_api("u");
    assert_eq!(thz_llm_tokens_gerados(Some(&ctx)), 0);
    let textos = ["abcdefgh", "abc", "olá mundo!!"];
    let mut esperado = 0u64;
    for t in textos {
        ctx.registrar_tokens(t);
        esperado += (t.len() / 4) as u64;
    }
    assert_eq!(esperado, 2 + 0 + 3);
    assert_eq!(thz_llm_tokens_gerados(Some(&ctx)), esperado);
}

#[test]
fn caminho_simples_e_o_proprio_nome() {
    let ctx = ThzLlmContext::novo(config("llama"));
    assert_eq!(thz_llm_info_modelo(Some(&ctx)), "Local: llama (provider=llama.cpp, gpu_layers=0)");
    let b = LocalBackend { config: config("llama"), modelo_valido: true };
    assert_eq!(b.modelo_info().nome, "llama");
    assert!(LocalBackend::novo(config("llama")).is_err());
    assert_eq!(ctx.coordenadas_embedding(1000), 1000);
    assert!(ctx.gerar("oi", 1, "1").is_err());
}

#[test]
fn backend_gerar_e_fechado_recusa() {
    let mut b = LocalBackend::validar(config("m.gguf"), true, Some("gguf")).unwrap();
    let t = b.gerar("abcd", 7, "0.5").unwrap();
    assert!(t.starts_with("[THZ-LLM Local] Prompt recebido (4 chars), max_tokens=7, temp=0.5."));
    assert!(b.modelo_valido);
    b.fechar();
    for p in ["", "x", "olá"] {
        assert_eq!(b.gerar(p, 100, "0.9").unwrap_err(), "Modelo não carregado");
    }
    assert!(!b.modelo_valido);
}
