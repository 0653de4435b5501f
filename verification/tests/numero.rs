use thz_runtime::numero::{formatar_escalado, formatar_inteiro};

#[test]
fn inteiro_como_display() {
    assert_eq!(formatar_inteiro(0), "0");
    assert_eq!(formatar_inteiro(7), "7");
    assert_eq!(formatar_inteiro(-42), "-42");
    assert_eq!(formatar_inteiro(1234567890), "1234567890");
    assert_eq!(formatar_inteiro(i128::MAX), i128::MAX.to_string());
    assert_eq!(formatar_inteiro(i128::MIN), i128::MIN.to_string());
    assert_eq!(formatar_inteiro(i64::MIN as i128), i64::MIN.to_string());
}

#[test]
fn escala_nao_positiva_escreve_o_inteiro() {
    assert_eq!(formatar_escalado(12345, 0), "12345");
    assert_eq!(formatar_escalado(-12345, -3), "-12345");
    assert_eq!(formatar_escalado(i128::MIN, 0), i128::MIN.to_string());
}

#[test]
fn escala_positiva() {
    assert_eq!(formatar_escalado(12345, 2), "123.45");
    assert_eq!(formatar_escalado(-12345, 3), "-12.345");
    assert_eq!(formatar_escalado(5, 3), "0.005");
    assert_eq!(formatar_escalado(-5, 3), "-0.005");
    assert_eq!(formatar_escalado(0, 2), "0.00");
    assert_eq!(formatar_escalado(100, 2), "1.00");
    assert_eq!(formatar_escalado(1, 1), "0.1");
}

#[test]
fn escala_maxima() {
    let dez_38: i128 = 100_000_000_000_000_000_000_000_000_000_000_000_000;
    assert_eq!(
        formatar_escalado(dez_38 + 1, 38),
        "1.00000000000000000000000000000000000001"
    );
    assert_eq!(
        formatar_escalado(i128::MAX, 38),
        "1.70141183460469231731687303715884105727"
    );
}

#[test]
fn casas_decimais_sao_exatamente_a_escala() {
    for escala in 1..=12 {
        for v in [0i128, 1, -1, 999, 1_000_000, -123_456_789] {
            let s = formatar_escalado(v, escala);
            let frac = s.split('.').nth(1).unwrap();
            assert_eq!(frac.len(), escala as usize);
            let inteira = s.split('.').next().unwrap().trim_start_matches('-');
            let lido: i128 = format!("{}{}", inteira, frac).parse().unwrap();
            assert_eq!(lido, v.abs());
        }
    }
}
