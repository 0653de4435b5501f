//! Decimal rendering of integers, plain and as fixed-point values with a scale.
use vstd::prelude::*;
use vstd::string::*;
use vstd::arithmetic::power::pow;

verus! {

/// `String::push`: as its documentation says, appends the given char to the end of
/// the string.
pub assume_specification[ String::push ](string: &mut String, ch: char)
    ensures
        final(string)@ == old(string)@.push(ch),
;

/// The character of the decimal digit `d` (`0 <= d < 10`).
pub open spec fn digito(d: int) -> char {
    (d + 48) as char
}

/// Whether `c` is one of `'0'..='9'`.
pub open spec fn e_digito(c: char) -> bool {
    48 <= c as int <= 57
}

/// Decimal digits of `n`, most significant first, without leading zeros.
pub open spec fn decimal(n: nat) -> Seq<char>
    decreases n,
{
    if n < 10 {
        seq![digito(n as int)]
    } else {
        decimal(n / 10).push(digito((n % 10) as int))
    }
}

/// `v` as Rust's `Display` writes an integer: a `-` for negatives, then the digits.
pub open spec fn decimal_com_sinal(v: int) -> Seq<char> {
    if v < 0 {
        seq!['-'] + decimal((-v) as nat)
    } else {
        decimal(v as nat)
    }
}

/// The number that a string of decimal digits denotes.
pub open spec fn valor(s: Seq<char>) -> int
    decreases s.len(),
{
    if s.len() == 0 {
        0
    } else {
        valor(s.drop_last()) * 10 + (s.last() as int - 48)
    }
}

/// `s` with zeros in front until it has at least `n` characters.
pub open spec fn com_zeros(s: Seq<char>, n: nat) -> Seq<char> {
    if s.len() >= n {
        s
    } else {
        Seq::new((n - s.len()) as nat, |i: int| '0') + s
    }
}

/// Absolute value.
pub open spec fn modulo(v: int) -> int {
    if v < 0 {
        -v
    } else {
        v
    }
}

/// Digits before the point of `val / 10^scale`.
pub open spec fn parte_inteira(val: int, scale: nat) -> Seq<char> {
    decimal((modulo(val) / pow(10, scale)) as nat)
}

/// The `scale` digits after the point of `val / 10^scale`.
pub open spec fn parte_fracionaria(val: int, scale: nat) -> Seq<char> {
    com_zeros(decimal((modulo(val) % pow(10, scale)) as nat), scale)
}

/// `val` read as a fixed-point number with `scale` decimal places: without a point
/// when `scale <= 0`, otherwise sign, integer part, `.`, and the fraction padded
/// with zeros to `scale` digits.
pub open spec fn texto_escalado(val: int, scale: int) -> Seq<char> {
    if scale <= 0 {
        decimal_com_sinal(val)
    } else {
        (if val < 0 { seq!['-'] } else { Seq::<char>::empty() }) + parte_inteira(val, scale as nat)
            + seq!['.'] + parte_fracionaria(val, scale as nat)
    }
}

proof fn lema_decimal_digitos(n: nat)
    ensures
        decimal(n).len() >= 1,
        forall|i: int| 0 <= i < decimal(n).len() ==> e_digito(#[trigger] decimal(n)[i]),
    decreases n,
{
    if n >= 10 {
        lema_decimal_digitos(n / 10);
    }
}

proof fn lema_decimal_curto(n: nat, k: nat)
    requires
        k >= 1,
        n < pow(10, k),
    ensures
        decimal(n).len() <= k,
    decreases k,
{
    reveal(pow);
    if n >= 10 {
        assert(k >= 2) by {
            if k == 1 {
                reveal_with_fuel(pow, 2);
            }
        }
        assert(n / 10 < pow(10, (k - 1) as nat)) by {
            assert(pow(10, k) == 10 * pow(10, (k - 1) as nat));
        }
        lema_decimal_curto(n / 10, (k - 1) as nat);
    }
}

proof fn lema_valor_concat(a: Seq<char>, b: Seq<char>)
    ensures
        valor(a + b) == valor(a) * pow(10, b.len()) + valor(b),
    decreases b.len(),
{
    reveal(pow);
    if b.len() == 0 {
        assert(a + b =~= a);
    } else {
        lema_valor_concat(a, b.drop_last());
        assert((a + b).drop_last() =~= a + b.drop_last());
        let x = valor(a);
        let p = pow(10, (b.len() - 1) as nat);
        assert(x * (10 * p) == (x * p) * 10) by (nonlinear_arith);
    }
}

proof fn lema_valor_so_zeros(n: nat)
    ensures
        valor(Seq::new(n, |i: int| '0')) == 0,
    decreases n,
{
    if n > 0 {
        assert(Seq::new(n, |i: int| '0').drop_last() =~= Seq::new((n - 1) as nat, |i: int| '0'));
        lema_valor_so_zeros((n - 1) as nat);
    }
}

/// Reading back the digits that `decimal` writes gives the number again.
pub proof fn lei_decimal_ida_e_volta(n: nat)
    ensures
        valor(decimal(n)) == n,
    decreases n,
{
    if n >= 10 {
        lei_decimal_ida_e_volta(n / 10);
        assert(decimal(n).drop_last() =~= decimal(n / 10));
        assert(decimal(n).last() as int - 48 == n % 10);
        assert(valor(decimal(n)) == valor(decimal(n / 10)) * 10 + n % 10);
    } else {
        assert(seq![digito(n as int)].drop_last() =~= Seq::<char>::empty());
        assert(valor(Seq::<char>::empty()) == 0);
        assert(decimal(n).last() as int - 48 == n);
    }
}

/// Leading zeros do not change the number that digits denote.
pub proof fn lei_zeros_a_esquerda(s: Seq<char>, n: nat)
    ensures
        valor(com_zeros(s, n)) == valor(s),
{
    if s.len() < n {
        lema_valor_concat(Seq::new((n - s.len()) as nat, |i: int| '0'), s);
        lema_valor_so_zeros((n - s.len()) as nat);
    }
}

/// With a positive scale the fraction has exactly `scale` digits, and the two parts
/// together denote `|val|`: `integer * 10^scale + fraction == |val|`.
pub proof fn lei_escala_exata(val: int, scale: nat)
    requires
        scale >= 1,
    ensures
        parte_fracionaria(val, scale).len() == scale,
        forall|i: int| 0 <= i < scale ==> e_digito(#[trigger] parte_fracionaria(val, scale)[i]),
        valor(parte_inteira(val, scale)) * pow(10, scale) + valor(parte_fracionaria(val, scale)) == modulo(val),
{
    let f = pow(10, scale);
    vstd::arithmetic::power::lemma_pow_positive(10, scale);
    let q = modulo(val) / f;
    let r = modulo(val) % f;
    vstd::arithmetic::div_mod::lemma_fundamental_div_mod(modulo(val), f);
    lema_decimal_curto(r as nat, scale);
    lema_decimal_digitos(r as nat);
    let d = decimal(r as nat);
    let p = parte_fracionaria(val, scale);
    assert forall|i: int| 0 <= i < scale implies e_digito(#[trigger] p[i]) by {
        if d.len() < scale {
            let z = (scale - d.len()) as nat;
            if i >= z {
                assert(p[i] == d[i - z]);
            }
        }
    }
    lei_decimal_ida_e_volta(q as nat);
    lei_decimal_ida_e_volta(r as nat);
    lei_zeros_a_esquerda(d, scale);
    assert(f * q == q * f) by (nonlinear_arith);
}

/// How a fixed-point text reads back, in terms of `val` alone: with a positive scale
/// it starts with `-` exactly when `val` is negative; after the sign come decimal
/// digits, a `.` and exactly `scale` decimal digits; and the sign with the two runs
/// of digits denote `val`: `±(integer * 10^scale + fraction) == val`.
pub proof fn lei_escalado_le_de_volta(val: int, scale: int)
    requires
        scale >= 1,
    ensures
        ({
            let t = texto_escalado(val, scale);
            let u = if val < 0 { t.drop_first() } else { t };
            let k = u.len() - scale - 1;
            let inteira = u.subrange(0, k);
            let fracao = u.subrange(k + 1, u.len() as int);
            &&& t.len() >= 1
            &&& (t[0] == '-') <==> val < 0
            &&& k >= 1
            &&& u[k] == '.'
            &&& forall|i: int| 0 <= i < k ==> e_digito(#[trigger] inteira[i])
            &&& forall|i: int| 0 <= i < scale ==> e_digito(#[trigger] fracao[i])
            &&& (if val < 0 { -1int } else { 1int }) * (valor(inteira) * pow(10, scale as nat) + valor(fracao)) == val
        }),
{
    let sc = scale as nat;
    lei_escala_exata(val, sc);
    let pi = parte_inteira(val, sc);
    let pf = parte_fracionaria(val, sc);
    lema_decimal_digitos((modulo(val) / pow(10, sc)) as nat);
    let t = texto_escalado(val, scale);
    let u = pi + seq!['.'] + pf;
    if val < 0 {
        assert(t == seq!['-'] + u);
        assert(t.drop_first() =~= u);
    } else {
        assert(t =~= u);
        assert(t[0] == pi[0]);
    }
    let k = u.len() - scale - 1;
    assert(k == pi.len());
    assert(u.subrange(0, k) =~= pi);
    assert(u.subrange(k + 1, u.len() as int) =~= pf);
}

/// How a decimal integer text reads back: it starts with `-` exactly when `v` is
/// negative, the rest is decimal digits, and they denote `|v|`.
pub proof fn lei_inteiro_le_de_volta(v: int)
    ensures
        ({
            let t = decimal_com_sinal(v);
            let u = if v < 0 { t.drop_first() } else { t };
            &&& u.len() >= 1
            &&& (t[0] == '-') <==> v < 0
            &&& forall|i: int| 0 <= i < u.len() ==> e_digito(#[trigger] u[i])
            &&& valor(u) == modulo(v)
        }),
{
    let m = modulo(v) as nat;
    lema_decimal_digitos(m);
    lei_decimal_ida_e_volta(m);
    let t = decimal_com_sinal(v);
    if v < 0 {
        assert(t.drop_first() =~= decimal(m));
    } else {
        assert(t[0] == decimal(m)[0]);
    }
}

/// Appends the digits of `n` to `s`.
fn escrever_decimal(n: u128, s: &mut String)
    ensures
        final(s)@ == old(s)@ + decimal(n as nat),
    decreases n,
{
    if n >= 10 {
        escrever_decimal(n / 10, s);
    }
    let d = (n % 10) as u8;
    s.push((d + 48) as char);
    proof {
        if n >= 10 {
            assert(old(s)@ + decimal(n as nat) =~= (old(s)@ + decimal((n / 10) as nat)).push(digito((n % 10) as int)));
        } else {
            assert(old(s)@ + decimal(n as nat) =~= old(s)@.push(digito(n as int)));
        }
    }
}

/// `v` in decimal, as Rust's `Display` writes it.
pub fn formatar_inteiro(v: i128) -> (r: String)
    ensures
        r@ == decimal_com_sinal(v as int),
{
    let mut s = String::new();
    if v < 0 {
        s.push('-');
        let m: u128 = (-(v + 1)) as u128 + 1;
        escrever_decimal(m, &mut s);
    } else {
        escrever_decimal(v as u128, &mut s);
    }
    proof {
        if v < 0 {
            assert(s@ =~= seq!['-'] + decimal((-v) as nat));
        }
    }
    s
}

/// `val` as a fixed-point number with `scale` decimal places (the text that
/// `thz_exiba_i128` prints). Requires what keeps the computation inside `i128`:
/// a scale of at most 38 and, with a positive scale, a value other than `i128::MIN`.
pub fn formatar_escalado(val: i128, scale: i32) -> (r: String)
    requires
        scale > 0 ==> scale <= 38 && val != i128::MIN,
    ensures
        r@ == texto_escalado(val as int, scale as int),
        r@.len() >= 1,
        (r@[0] == '-') <==> val < 0,
{
    proof {
        if scale > 0 {
            lei_escalado_le_de_volta(val as int, scale as int);
        } else {
            lei_inteiro_le_de_volta(val as int);
        }
    }
    if scale <= 0 {
        return formatar_inteiro(val);
    }
    let mut s = String::new();
    if val < 0 {
        s.push('-');
    }
    let abs_val: i128 = if val < 0 { -val } else { val };
    let mut fator: i128 = 1;
    let mut i: i32 = 0;
    proof {
        reveal(pow);
        reveal_with_fuel(pow, 40);
        assert(pow(10, 38) == 100000000000000000000000000000000000000);
    }
    while i < scale
        invariant
            0 <= i <= scale <= 38,
            fator == pow(10, i as nat),
            pow(10, 38) == 100000000000000000000000000000000000000,
        decreases scale - i,
    {
        proof {
            reveal(pow);
            vstd::arithmetic::power::lemma_pow_increases(10, (i + 1) as nat, 38);
        }
        assert(pow(10, (i + 1) as nat) == 10 * pow(10, i as nat));
        assert(pow(10, (i + 1) as nat) <= pow(10, 38));
        proof {
            vstd::arithmetic::power::lemma_pow_positive(10, i as nat);
        }
        fator = fator * 10;
        i = i + 1;
    }
    proof {
        vstd::arithmetic::power::lemma_pow_positive(10, scale as nat);
    }
    let inteira = abs_val / fator;
    let resto = abs_val % fator;
    escrever_decimal(inteira as u128, &mut s);
    s.push('.');
    let mut frac = String::new();
    escrever_decimal(resto as u128, &mut frac);
    let n = frac.as_str().unicode_len();
    let falta: usize = if n < scale as usize { scale as usize - n } else { 0 };
    let ghost antes = s@;
    let mut k: usize = 0;
    while k < falta
        invariant
            k <= falta,
            s@ == antes + Seq::new(k as nat, |j: int| '0'),
        decreases falta - k,
    {
        s.push('0');
        k = k + 1;
        proof {
            assert(s@ =~= antes + Seq::new(k as nat, |j: int| '0'));
        }
    }
    s.append(frac.as_str());
    proof {
        let fp = decimal((modulo(val as int) % pow(10, scale as nat)) as nat);
        assert(frac@ == fp);
        if fp.len() >= scale {
            assert(Seq::new(k as nat, |j: int| '0') =~= Seq::<char>::empty());
        }
        assert(s@ =~= texto_escalado(val as int, scale as int));
    }
    s
}

} // verus!
