//! Text handling behind the C interface: C strings are handed over as their bytes
//! (without the terminating NUL), and `None` stands for the null pointer.
use vstd::prelude::*;

verus! {

/// Whether `b` holds a NUL byte, which a C string cannot carry.
pub open spec fn tem_nulo(b: Seq<u8>) -> bool {
    exists|i: int| 0 <= i < b.len() && b[i] == 0
}

/// Bytes of the C string made from `b`: `b` itself, or the empty string when `b`
/// holds a NUL byte (as `CString::new(b).unwrap_or_default()` gives).
pub open spec fn bytes_c(b: Seq<u8>) -> Seq<u8> {
    if tem_nulo(b) {
        Seq::empty()
    } else {
        b
    }
}

/// The part of `b` that `thz_substring` returns: empty for a negative start, a
/// non-positive length or a start past the end; otherwise the bytes from `inicio`
/// up to `inicio + len`, cut at the end of `b`.
pub open spec fn substring_c(b: Seq<u8>, inicio: int, len: int) -> Seq<u8> {
    if inicio < 0 || len <= 0 || inicio >= b.len() {
        Seq::empty()
    } else {
        let fim = if inicio + len < b.len() { inicio + len } else { b.len() as int };
        bytes_c(b.subrange(inicio, fim))
    }
}

/// What `thz_substring` gives, in terms of `b` alone: nothing for a negative start,
/// a non-positive length or a start at or past the end; otherwise, unless the piece
/// holds a NUL byte, exactly the bytes of `b` from `inicio` on, as many as `len` but
/// no more than are left, so at least one.
pub proof fn lei_substring(b: Seq<u8>, inicio: int, len: int)
    ensures
        inicio < 0 || len <= 0 || inicio >= b.len() ==> substring_c(b, inicio, len).len() == 0,
        0 <= inicio < b.len() && len >= 1 ==> ({
            let n = if len < b.len() - inicio { len } else { b.len() - inicio };
            let pedaco = b.subrange(inicio, inicio + n);
            &&& n >= 1
            &&& !tem_nulo(pedaco) ==> substring_c(b, inicio, len) == pedaco
            &&& !tem_nulo(pedaco) ==> substring_c(b, inicio, len).len() == n
            &&& tem_nulo(pedaco) ==> substring_c(b, inicio, len).len() == 0
        }),
        !tem_nulo(substring_c(b, inicio, len)),
{
    if 0 <= inicio < b.len() && len >= 1 {
        let n = if len < b.len() - inicio { len } else { b.len() - inicio };
        let fim = if inicio + len < b.len() { inicio + len } else { b.len() as int };
        assert(fim == inicio + n);
    }
    if tem_nulo(substring_c(b, inicio, len)) {
        let i = choose|i: int| 0 <= i < substring_c(b, inicio, len).len() && substring_c(b, inicio, len)[i] == 0;
        assert(substring_c(b, inicio, len).len() > 0);
    }
}

/// Whether `b` holds a NUL byte.
pub fn contem_nulo(b: &[u8]) -> (r: bool)
    ensures
        r == tem_nulo(b@),
{
    let mut i: usize = 0;
    while i < b.len()
        invariant
            i <= b.len(),
            forall|j: int| 0 <= j < i ==> b@[j] != 0,
        decreases b.len() - i,
    {
        if b[i] == 0 {
            return true;
        }
        i = i + 1;
    }
    false
}

/// The bytes of a C string built from `b`: a copy of `b`, or nothing when `b` holds
/// a NUL byte.
pub fn texto_c(b: &[u8]) -> (r: Vec<u8>)
    ensures
        r@ == bytes_c(b@),
{
    if contem_nulo(b) {
        Vec::new()
    } else {
        vstd::slice::slice_to_vec(b)
    }
}

/// Length of a C string: 0 for the null pointer, else its byte count converted to
/// `i32` with `as` (so lengths past `i32::MAX` wrap).
pub fn thz_tamanho_str(s: Option<&[u8]>) -> (r: i32)
    ensures
        r == (match s {
            None => 0i32,
            Some(b) => b@.len() as i32,
        }),
{
    match s {
        None => 0,
        Some(b) => b.len() as i32,
    }
}

/// Byte `idx` of a C string as an `i32`; 0 for the null pointer, a negative index or
/// an index past the end.
pub fn thz_char_at(s: Option<&[u8]>, idx: i32) -> (r: i32)
    ensures
        r == (match s {
            Some(b) => if 0 <= idx < b@.len() { b@[idx as int] as i32 } else { 0i32 },
            None => 0i32,
        }),
{
    match s {
        None => 0,
        Some(b) => {
            if idx < 0 {
                return 0;
            }
            if (idx as usize) < b.len() {
                b[idx as usize] as i32
            } else {
                0
            }
        },
    }
}

/// The bytes of the C string that `thz_substring` returns: `len` bytes of `s` from
/// `inicio`, cut at the end of `s`; empty for the null pointer, a negative start, a
/// non-positive length, a start past the end, or a piece that holds a NUL byte.
pub fn thz_substring(s: Option<&[u8]>, inicio: i32, len: i32) -> (r: Vec<u8>)
    ensures
        r@ == (match s {
            None => Seq::<u8>::empty(),
            Some(b) => substring_c(b@, inicio as int, len as int),
        }),
        s matches Some(b) ==> (0 <= inicio < b@.len() && len >= 1 && !tem_nulo(
            b@.subrange(inicio as int, if len < b@.len() - inicio { inicio + len } else { b@.len() as int }),
        ) ==> r@ == b@.subrange(
            inicio as int,
            if len < b@.len() - inicio { inicio + len } else { b@.len() as int },
        ) && r@.len() >= 1),
{
    proof {
        if let Some(b) = s {
            lei_substring(b@, inicio as int, len as int);
        }
    }
    match s {
        None => Vec::new(),
        Some(b) => {
            if inicio < 0 || len <= 0 {
                return Vec::new();
            }
            let start = inicio as usize;
            if start >= b.len() {
                return Vec::new();
            }
            let soma = start + len as usize;
            let end = if soma < b.len() { soma } else { b.len() };
            let sub = &b[start..end];
            texto_c(sub)
        },
    }
}

/// The word that `thz_exiba_bool` prints.
pub fn texto_bool(val: bool) -> (r: &'static str)
    ensures
        r@ == (if val { "VERDADEIRO"@ } else { "FALSO"@ }),
{
    if val {
        "VERDADEIRO"
    } else {
        "FALSO"
    }
}

} // verus!
