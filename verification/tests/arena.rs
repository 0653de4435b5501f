use thz_runtime::arena::ThzArena;

#[test]
fn arena_nova_comeca_vazia() {
    let a = ThzArena::new(64, 4096).unwrap();
    assert_eq!(a.base(), 4096);
    assert_eq!(a.capacidade(), 64);
    assert_eq!(a.alinhamento(), std::mem::align_of::<usize>());
    assert_eq!(a.offset(), 0);
}

#[test]
fn arena_sem_buffer_falha() {
    assert!(ThzArena::new(64, 0).is_none());
}

#[test]
fn arena_tamanho_impossivel_falha() {
    assert!(!ThzArena::layout_valido(usize::MAX));
    assert!(ThzArena::new(usize::MAX - 4096, 4096).is_none());
    assert!(ThzArena::layout_valido(0));
    assert!(ThzArena::layout_valido(1 << 20));
}

#[test]
fn arena_alinhamento_do_buffer_e_potencia_de_dois() {
    let a = ThzArena::alinhamento_do_buffer();
    assert_eq!(a, std::mem::align_of::<usize>());
    assert!(a.is_power_of_two());
}

#[test]
fn arena_alocacoes_sucessivas_nao_se_sobrepoem() {
    let mut a = ThzArena::new(64, 4096).unwrap();
    assert_eq!(a.alocar(10, 8), Some(4096));
    assert_eq!(a.offset(), 10);
    // next block is rounded up to 8: 4106 -> 4112
    assert_eq!(a.alocar(4, 8), Some(4112));
    assert_eq!(a.offset(), 20);
    assert_eq!(a.alocar(1, 1), Some(4116));
    assert_eq!(a.offset(), 21);
}

#[test]
fn arena_bloco_alinhado() {
    let mut a = ThzArena::new(256, 1000).unwrap();
    let p = a.alocar(3, 1).unwrap();
    assert_eq!(p, 1000);
    let q = a.alocar(16, 64).unwrap();
    assert_eq!(q % 64, 0);
    assert_eq!(q, 1024);
    assert_eq!(a.offset(), 1024 + 16 - 1000);
}

#[test]
fn arena_pedido_que_nao_cabe_nao_altera() {
    let mut a = ThzArena::new(16, 4096).unwrap();
    assert_eq!(a.alocar(12, 1), Some(4096));
    assert_eq!(a.alocar(8, 1), None);
    assert_eq!(a.offset(), 12);
    assert_eq!(a.alocar(4, 1), Some(4108));
    assert_eq!(a.offset(), 16);
    assert_eq!(a.alocar(0, 1), Some(4112));
    assert_eq!(a.alocar(1, 1), None);
}

#[test]
fn arena_preenchimento_conta_na_capacidade() {
    let mut a = ThzArena::new(17, 4096).unwrap();
    assert_eq!(a.alocar(1, 1), Some(4096));
    // the cursor 4097 is rounded up to 4104, which leaves only 9 bytes
    assert_eq!(a.alocar(10, 8), None);
    assert_eq!(a.alocar(9, 8), Some(4104));
}

#[test]
fn arena_resetar_libera_tudo() {
    let mut a = ThzArena::new(32, 4096).unwrap();
    assert_eq!(a.alocar(32, 1), Some(4096));
    assert_eq!(a.alocar(1, 1), None);
    a.resetar();
    assert_eq!(a.offset(), 0);
    assert_eq!(a.base(), 4096);
    assert_eq!(a.capacidade(), 32);
    assert_eq!(a.alocar(32, 1), Some(4096));
}

#[test]
fn arena_primeiro_bloco_apos_resetar_na_base() {
    let mut a = ThzArena::new(32, 4096).unwrap();
    assert_eq!(a.alocar(5, 1), Some(4096));
    a.resetar();
    assert_eq!(a.alocar(8, 8), Some(4096));
    a.resetar();
    assert_eq!(a.alocar(33, 4), None);
    assert_eq!(a.offset(), 0);
    assert_eq!(a.alocar(32, 2), Some(4096));
    assert_eq!(a.offset(), 32);
}

#[test]
fn arena_blocos_entre_resets_nao_se_sobrepoem() {
    let mut a = ThzArena::new(128, 4096).unwrap();
    let pedidos = [(3usize, 1usize), (10, 8), (1, 2), (7, 4), (16, 16), (5, 1)];
    let mut blocos = Vec::new();
    for (b, al) in pedidos {
        if let Some(p) = a.alocar(b, al) {
            assert_eq!(p % al, 0);
            blocos.push((p, b));
        }
    }
    assert_eq!(blocos.len(), pedidos.len());
    for i in 0..blocos.len() {
        for j in i + 1..blocos.len() {
            assert!(blocos[i].0 + blocos[i].1 <= blocos[j].0);
        }
    }
    assert!(blocos.iter().all(|&(p, b)| p + b <= 4096 + 128));
}
