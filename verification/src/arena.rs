//! Contiguous bump allocator ("arena"): allocations advance a cursor through one
//! buffer and are all released at once by resetting the cursor, in constant time.
//!
//! The arena keeps the bookkeeping over the buffer's addresses; obtaining and
//! returning the memory itself is done by whoever owns the buffer.
use vstd::prelude::*;

verus! {

/// Abstract state of an arena: the buffer `[base, base + capacidade)`, the
/// alignment that the buffer was laid out with, and the number of bytes of it
/// already handed out (`offset`).
pub struct EstadoArena {
    pub base: int,
    pub capacidade: int,
    pub alinhamento: int,
    pub offset: int,
}

impl EstadoArena {
    /// A state that describes a real buffer: the cursor lies inside the buffer, the
    /// buffer lies inside the address space, and its start is aligned to the
    /// alignment it was laid out with, a power of two.
    pub open spec fn valido(self) -> bool {
        &&& 0 <= self.offset <= self.capacidade
        &&& 0 <= self.base
        &&& self.base + self.capacidade <= usize::MAX
        &&& 0 < self.alinhamento <= usize::MAX
        &&& potencia_de_dois(self.alinhamento as usize)
        &&& (self.base as usize) & ((self.alinhamento - 1) as usize) == 0
    }

    /// Address of the next free byte.
    pub open spec fn cursor(self) -> int {
        self.base + self.offset
    }

    /// Bytes that `alocar(bytes, align)` skips to reach the aligned address.
    pub open spec fn preenchimento(self, align: usize) -> int {
        alinhar_para_cima(self.cursor() as usize, align) - self.cursor()
    }

    /// The inputs on which the allocation arithmetic stays inside `usize`.
    pub open spec fn alocacao_definida(self, bytes: usize, align: usize) -> bool {
        &&& align > 0
        &&& self.cursor() + align <= usize::MAX
        &&& self.offset + self.preenchimento(align) + bytes <= usize::MAX
    }

    /// Whether a request for `bytes` bytes aligned to `align` fits in what is left.
    pub open spec fn cabe(self, bytes: usize, align: usize) -> bool {
        self.offset + self.preenchimento(align) + bytes <= self.capacidade
    }

    /// Address that a successful `alocar(bytes, align)` hands out.
    pub open spec fn endereco(self, align: usize) -> int {
        alinhar_para_cima(self.cursor() as usize, align) as int
    }

    /// State after one request: unchanged when it does not fit, otherwise the cursor
    /// moves past the block that was handed out.
    pub open spec fn apos_alocar(self, bytes: usize, align: usize) -> EstadoArena {
        if self.cabe(bytes, align) {
            EstadoArena {
                offset: self.offset + self.preenchimento(align) + bytes,
                ..self
            }
        } else {
            self
        }
    }

    /// What one request returns: `None` when it does not fit, else the block's address.
    pub open spec fn resultado_alocar(self, bytes: usize, align: usize) -> Option<int> {
        if self.cabe(bytes, align) {
            Some(self.endereco(align))
        } else {
            None
        }
    }
}

/// `x` rounded up by `align` the way the allocator does it: `(x + align - 1) & !(align - 1)`.
/// For a power of two this is the least multiple of `align` that is at least `x`.
pub open spec fn alinhar_para_cima(x: usize, align: usize) -> usize {
    ((x + align - 1) as usize) & !((align - 1) as usize)
}

/// `align` is a power of two, in the bitwise form the allocator relies on.
pub open spec fn potencia_de_dois(align: usize) -> bool {
    align != 0 && align & ((align - 1) as usize) == 0
}

proof fn lema_arredondamento(x: usize, m: usize)
    requires
        x + m <= usize::MAX,
    ensures
        x <= (((x + m) as usize) & !m),
        (((x + m) as usize) & !m) <= x + m,
{
    let y = (x + m) as usize;
    assert(y & !m <= y) by (bit_vector);
    assert(y >= m ==> (y & !m) >= y - m) by (bit_vector);
}

proof fn lema_alinhado(x: usize, a: usize)
    requires
        x + a - 1 <= usize::MAX,
        potencia_de_dois(a),
    ensures
        alinhar_para_cima(x, a) & ((a - 1) as usize) == 0,
{
    let m = (a - 1) as usize;
    let y = (x + m) as usize;
    assert((y & !m) & m == 0) by (bit_vector);
}

/// For a power of two `a`, `alinhar_para_cima(x, a)` is the least multiple of `a`
/// that is at least `x`: a multiple of `a` in `[x, x + a)`.
pub proof fn lema_menor_multiplo(x: usize, a: usize)
    requires
        potencia_de_dois(a),
        x + a - 1 <= usize::MAX,
    ensures
        alinhar_para_cima(x, a) % a == 0,
        x <= alinhar_para_cima(x, a) < x + a,
{
    let m = (a - 1) as usize;
    lema_arredondamento(x, m);
    lema_alinhado(x, a);
    lema_mascara_e_resto(alinhar_para_cima(x, a), a);
}

/// For a power of two `a`, clearing the bits below `a` leaves a multiple of `a`.
proof fn lema_mascara_e_resto(r: usize, a: usize)
    requires
        potencia_de_dois(a),
        r & ((a - 1) as usize) == 0,
    ensures
        r % a == 0,
    decreases a,
{
    if a != 1 {
        let b: usize = a / 2;
        let q: usize = r / 2;
        assert(potencia_de_dois(b) && a == 2 * b) by (bit_vector)
            requires
                b == a / 2,
                a != 1,
                potencia_de_dois(a),
        ;
        assert(q & ((b - 1) as usize) == 0 && r == 2 * q) by (bit_vector)
            requires
                q == r / 2,
                a == 2 * b,
                b != 0,
                r & ((a - 1) as usize) == 0,
        ;
        lema_mascara_e_resto(q, b);
        let k: int = q as int / b as int;
        vstd::arithmetic::div_mod::lemma_fundamental_div_mod(q as int, b as int);
        assert(r == k * a) by (nonlinear_arith)
            requires
                r == 2 * q,
                q == b * k,
                a == 2 * b,
        ;
        vstd::arithmetic::div_mod::lemma_mod_multiples_basic(k, a as int);
    }
}

/// An address already aligned to `a` is left where it is.
proof fn lema_ja_alinhado(x: usize, a: usize)
    requires
        potencia_de_dois(a),
        x & ((a - 1) as usize) == 0,
    ensures
        alinhar_para_cima(x, a) == x,
{
    let m = (a - 1) as usize;
    assert(x & m == 0 ==> ((x + m) as usize) & !m == x) by (bit_vector);
}

/// An address aligned to a power of two is aligned to every smaller power of two.
proof fn lema_alinhamento_menor(x: usize, a: usize, b: usize)
    requires
        potencia_de_dois(a),
        potencia_de_dois(b),
        a <= b,
        x & ((b - 1) as usize) == 0,
    ensures
        x & ((a - 1) as usize) == 0,
{
    assert(a != 0 && a & ((a - 1) as usize) == 0 && b & ((b - 1) as usize) == 0 && a <= b
        && x & ((b - 1) as usize) == 0 ==> x & ((a - 1) as usize) == 0) by (bit_vector);
}

/// vstd's power of two (`is_pow2`, the one of `valid_layout`) in the bitwise form.
proof fn lema_potencia_de_dois(n: usize)
    requires
        vstd::arithmetic::power2::is_pow2(n as int),
    ensures
        potencia_de_dois(n),
    decreases n,
{
    reveal(vstd::arithmetic::power2::is_pow2);
    if n == 1 {
        assert(1usize & 0usize == 0) by (bit_vector);
    } else {
        let m: usize = n / 2;
        lema_potencia_de_dois(m);
        assert(n == 2 * m);
        assert(m != 0 && m & ((m - 1) as usize) == 0 && n == 2 * m ==> n & ((n - 1) as usize) == 0)
            by (bit_vector);
    }
}

/// A bump allocator over one buffer.
pub struct ThzArena {
    base: usize,
    capacidade: usize,
    alinhamento: usize,
    offset: usize,
}

impl View for ThzArena {
    type V = EstadoArena;

    closed spec fn view(&self) -> EstadoArena {
        EstadoArena {
            base: self.base as int,
            capacidade: self.capacidade as int,
            alinhamento: self.alinhamento as int,
            offset: self.offset as int,
        }
    }
}

impl ThzArena {
    #[verifier::type_invariant]
    spec fn invariante(self) -> bool {
        &&& self@.valido()
        &&& self.alinhamento as nat == vstd::layout::align_of::<usize>()
    }

    /// The alignment that the buffer of an arena is requested with (that of `usize`).
    pub fn alinhamento_do_buffer() -> (r: usize)
        ensures
            r as nat == vstd::layout::align_of::<usize>(),
            vstd::layout::valid_layout(0, r),
    {
        vstd::layout::layout_for_type_is_valid::<usize>();
        std::mem::align_of::<usize>()
    }

    /// Whether a buffer of `bytes` bytes, aligned as `alinhamento_do_buffer`, can be
    /// described to the allocator at all.
    pub fn layout_valido(bytes: usize) -> (r: bool)
        ensures
            r == vstd::layout::valid_layout(bytes, vstd::layout::align_of::<usize>() as usize),
    {
        let align = Self::alinhamento_do_buffer();
        layout_aceito(bytes, align)
    }

    /// Builds the arena over a buffer of `bytes` bytes that starts at address `buffer`,
    /// where `0` stands for an allocation that failed; a buffer that the allocator
    /// handed out is aligned as `alinhamento_do_buffer`. It fails when the size cannot
    /// be laid out or the buffer is missing; otherwise the whole buffer is free.
    pub fn new(bytes: usize, buffer: usize) -> (r: Option<ThzArena>)
        requires
            buffer != 0 ==> buffer + bytes <= usize::MAX,
            buffer != 0 ==> buffer & ((vstd::layout::align_of::<usize>() - 1) as usize) == 0,
        ensures
            r is None <==> (!vstd::layout::valid_layout(bytes, vstd::layout::align_of::<usize>() as usize)
                || buffer == 0),
            r matches Some(a) ==> a@ == (EstadoArena {
                base: buffer as int,
                capacidade: bytes as int,
                alinhamento: vstd::layout::align_of::<usize>() as int,
                offset: 0,
            }),
    {
        if !Self::layout_valido(bytes) {
            return None;
        }
        if buffer == 0 {
            return None;
        }
        let alinhamento = Self::alinhamento_do_buffer();
        proof {
            lema_potencia_de_dois(alinhamento);
        }
        Some(ThzArena { base: buffer, capacidade: bytes, alinhamento, offset: 0 })
    }

    /// Hands out `bytes` bytes whose address is the cursor rounded up by `align`,
    /// or `None` (the null pointer) when they do not fit in what is left.
    pub fn alocar(&mut self, bytes: usize, align: usize) -> (r: Option<usize>)
        requires
            old(self)@.alocacao_definida(bytes, align),
        ensures
            final(self)@ == old(self)@.apos_alocar(bytes, align),
            r matches Some(p) ==> Some(p as int) == old(self)@.resultado_alocar(bytes, align),
            r is None <==> old(self)@.resultado_alocar(bytes, align) is None,
            final(self)@.valido(),
            final(self)@.alinhamento == vstd::layout::align_of::<usize>(),
            // the block lies inside the buffer, after everything handed out before
            r matches Some(p) ==> old(self)@.cursor() <= p && p + bytes == final(self)@.cursor()
                && p + bytes <= final(self)@.base + final(self)@.capacidade,
            // with a power-of-two alignment the block is aligned
            r matches Some(p) ==> (potencia_de_dois(align) ==> p & ((align - 1) as usize) == 0),
            // with a power-of-two alignment it refuses only when no aligned block at or
            // after the cursor fits, and otherwise gives the first aligned address
            potencia_de_dois(align) ==> (r is None <==> (forall|p: int|
                old(self)@.cursor() <= p && p % (align as int) == 0 ==> #[trigger] (p + bytes)
                    > old(self)@.base + old(self)@.capacidade)),
            r matches Some(p) ==> (potencia_de_dois(align) ==> p % align == 0 && p < old(self)@.cursor() + align),
    {
        proof {
            use_type_invariant(&*self);
            if potencia_de_dois(align) {
                lei_alocar_primeiro_endereco_alinhado(self@, bytes, align);
            }
            lema_arredondamento((self.base + self.offset) as usize, (align - 1) as usize);
        }
        let current = self.base + self.offset;
        let aligned = (current + align - 1) & !(align - 1);
        let padding = aligned - current;
        if self.offset + padding + bytes > self.capacidade {
            return None;
        }
        self.offset = self.offset + padding;
        let result = self.base + self.offset;
        self.offset = self.offset + bytes;
        proof {
            if potencia_de_dois(align) {
                lema_alinhado(current, align);
            }
        }
        Some(result)
    }

    /// Frees everything at once: the cursor goes back to the start of the buffer.
    pub fn resetar(&mut self)
        ensures
            final(self)@ == (EstadoArena { offset: 0, ..old(self)@ }),
            final(self)@.valido(),
            final(self)@.alinhamento == vstd::layout::align_of::<usize>(),
            // the first request aligned to at most `usize`'s alignment gets the base
            forall|bytes: usize, align: usize|
                potencia_de_dois(align) && align <= vstd::layout::align_of::<usize>()
                    && final(self)@.alocacao_definida(bytes, align) ==> #[trigger] final(self)@.resultado_alocar(
                    bytes,
                    align,
                ) == (if bytes <= final(self)@.capacidade {
                    Some(final(self)@.base)
                } else {
                    None::<int>
                }),
    {
        proof {
            use_type_invariant(&*self);
        }
        self.offset = 0;
        proof {
            assert forall|bytes: usize, align: usize|
                potencia_de_dois(align) && align <= vstd::layout::align_of::<usize>()
                    && self@.alocacao_definida(bytes, align) implies #[trigger] self@.resultado_alocar(bytes, align)
                == (if bytes <= self@.capacidade {
                Some(self@.base)
            } else {
                None::<int>
            }) by {
                lei_primeiro_bloco_na_base(self@, bytes, align);
            }
        }
    }

    /// Address of the buffer.
    pub fn base(&self) -> (r: usize)
        ensures
            r == self@.base,
    {
        self.base
    }

    /// Alignment that the buffer was laid out with.
    pub fn alinhamento(&self) -> (r: usize)
        ensures
            r == self@.alinhamento,
    {
        self.alinhamento
    }

    /// Size of the buffer in bytes.
    pub fn capacidade(&self) -> (r: usize)
        ensures
            r == self@.capacidade,
    {
        self.capacidade
    }

    /// Bytes handed out since the last reset, padding included.
    pub fn offset(&self) -> (r: usize)
        ensures
            r == self@.offset,
            self@.valido(),
            self@.alinhamento == vstd::layout::align_of::<usize>(),
    {
        proof {
            use_type_invariant(self);
        }
        self.offset
    }
}

/// `std::alloc::Layout::from_size_align(bytes, align)`: as its documentation says,
/// it succeeds exactly when `align` is a power of two and `bytes` rounded up to a
/// multiple of `align` does not exceed `isize::MAX` (vstd's `valid_layout`).
#[verifier::external_body]
fn layout_aceito(bytes: usize, align: usize) -> (r: bool)
    ensures
        r == vstd::layout::valid_layout(bytes, align),
{
    std::alloc::Layout::from_size_align(bytes, align).is_ok()
}

/// Blocks handed out one after the other never overlap: the second one starts at or
/// after the end of the first.
pub proof fn lei_blocos_nao_se_sobrepoem(s: EstadoArena, b1: usize, a1: usize, b2: usize, a2: usize)
    requires
        s.valido(),
        s.alocacao_definida(b1, a1),
        s.apos_alocar(b1, a1).alocacao_definida(b2, a2),
        s.resultado_alocar(b1, a1) is Some,
        s.apos_alocar(b1, a1).resultado_alocar(b2, a2) is Some,
    ensures
        s.resultado_alocar(b1, a1)->0 + b1 <= s.apos_alocar(b1, a1).resultado_alocar(b2, a2)->0,
{
    let t = s.apos_alocar(b1, a1);
    lema_arredondamento(s.cursor() as usize, (a1 - 1) as usize);
    lema_arredondamento(t.cursor() as usize, (a2 - 1) as usize);
}

/// On a buffer with no cursor advance (a fresh arena, or one just reset), a request
/// aligned to a power of two no larger than the buffer's alignment gets the start of
/// the buffer when it fits in the whole buffer, and nothing otherwise.
pub proof fn lei_primeiro_bloco_na_base(s: EstadoArena, bytes: usize, align: usize)
    requires
        s.valido(),
        s.offset == 0,
        potencia_de_dois(align),
        align <= s.alinhamento,
        s.alocacao_definida(bytes, align),
    ensures
        s.resultado_alocar(bytes, align) == (if bytes <= s.capacidade { Some(s.base) } else { None::<int> }),
        s.apos_alocar(bytes, align).offset == (if bytes <= s.capacidade { bytes as int } else { 0 }),
{
    let x = s.base as usize;
    lema_alinhamento_menor(x, align, s.alinhamento as usize);
    lema_ja_alinhado(x, align);
}

proof fn lema_multiplo_depois(p: int, r: int, a: int)
    requires
        a > 0,
        p >= 0,
        r >= 0,
        p % a == 0,
        r % a == 0,
        p > r - a,
    ensures
        p >= r,
{
    vstd::arithmetic::div_mod::lemma_fundamental_div_mod(p, a);
    vstd::arithmetic::div_mod::lemma_fundamental_div_mod(r, a);
    let qp = p / a;
    let qr = r / a;
    assert(p >= r) by (nonlinear_arith)
        requires
            p == a * qp,
            r == a * qr,
            p > r - a,
            a > 0,
    ;
}

/// What one request does, in terms of addresses: with a power-of-two alignment it
/// hands out the first address at or after the cursor that is a multiple of `align`
/// when the block starting there ends inside the buffer, and then the cursor moves
/// to the end of the block; it refuses, changing nothing, exactly when no block
/// aligned to `align` at or after the cursor ends inside the buffer.
pub proof fn lei_alocar_primeiro_endereco_alinhado(s: EstadoArena, bytes: usize, align: usize)
    requires
        s.valido(),
        potencia_de_dois(align),
        s.alocacao_definida(bytes, align),
    ensures
        s.resultado_alocar(bytes, align) matches Some(p) ==> p % (align as int) == 0 && s.cursor() <= p
            < s.cursor() + align && p + bytes <= s.base + s.capacidade && s.apos_alocar(bytes, align).offset
            == p + bytes - s.base,
        s.resultado_alocar(bytes, align) is None ==> s.apos_alocar(bytes, align) == s,
        s.resultado_alocar(bytes, align) is None <==> (forall|p: int|
            s.cursor() <= p && p % (align as int) == 0 ==> #[trigger] (p + bytes) > s.base + s.capacidade),
{
    let x = s.cursor() as usize;
    lema_menor_multiplo(x, align);
    let r = alinhar_para_cima(x, align) as int;
    if s.resultado_alocar(bytes, align) is None {
        assert forall|p: int| s.cursor() <= p && p % (align as int) == 0 implies #[trigger] (p + bytes) > s.base
            + s.capacidade by {
            lema_multiplo_depois(p, r, align as int);
        }
    } else {
        assert(!(r + bytes > s.base + s.capacidade));
    }
}

/// State of an arena after the requests `pedidos` (bytes, alignment), one after the
/// other, starting from `s`.
pub open spec fn apos_pedidos(s: EstadoArena, pedidos: Seq<(usize, usize)>) -> EstadoArena
    decreases pedidos.len(),
{
    if pedidos.len() == 0 {
        s
    } else {
        apos_pedidos(s, pedidos.drop_last()).apos_alocar(pedidos.last().0, pedidos.last().1)
    }
}

/// State just before request number `k` of `pedidos`.
pub open spec fn antes_do_pedido(s: EstadoArena, pedidos: Seq<(usize, usize)>, k: int) -> EstadoArena {
    apos_pedidos(s, pedidos.take(k))
}

/// What request number `k` of `pedidos` returns.
pub open spec fn resultado_do_pedido(s: EstadoArena, pedidos: Seq<(usize, usize)>, k: int) -> Option<int> {
    antes_do_pedido(s, pedidos, k).resultado_alocar(pedidos[k].0, pedidos[k].1)
}

/// Every request of `pedidos`, made in turn from `s`, keeps its arithmetic inside `usize`.
pub open spec fn pedidos_definidos(s: EstadoArena, pedidos: Seq<(usize, usize)>) -> bool {
    forall|k: int|
        0 <= k < pedidos.len() ==> #[trigger] antes_do_pedido(s, pedidos, k).alocacao_definida(
            pedidos[k].0,
            pedidos[k].1,
        )
}

proof fn lema_passo(s: EstadoArena, b: usize, a: usize)
    requires
        s.valido(),
        s.alocacao_definida(b, a),
    ensures
        s.apos_alocar(b, a).valido(),
        s.cursor() <= s.apos_alocar(b, a).cursor(),
        s.resultado_alocar(b, a) matches Some(p) ==> s.cursor() <= p && p + b == s.apos_alocar(b, a).cursor(),
{
    lema_arredondamento(s.cursor() as usize, (a - 1) as usize);
}

proof fn lema_um_pedido(s: EstadoArena, pedidos: Seq<(usize, usize)>, k: int)
    requires
        0 < k <= pedidos.len(),
    ensures
        antes_do_pedido(s, pedidos, k) == antes_do_pedido(s, pedidos, k - 1).apos_alocar(
            pedidos[k - 1].0,
            pedidos[k - 1].1,
        ),
{
    assert(pedidos.take(k).drop_last() =~= pedidos.take(k - 1));
    assert(pedidos.take(k).last() == pedidos[k - 1]);
}

proof fn lema_estados_validos(s: EstadoArena, pedidos: Seq<(usize, usize)>, k: int)
    requires
        s.valido(),
        pedidos_definidos(s, pedidos),
        0 <= k <= pedidos.len(),
    ensures
        antes_do_pedido(s, pedidos, k).valido(),
    decreases k,
{
    if k == 0 {
        assert(pedidos.take(0) =~= Seq::<(usize, usize)>::empty());
    } else {
        lema_estados_validos(s, pedidos, k - 1);
        lema_um_pedido(s, pedidos, k);
        let t = antes_do_pedido(s, pedidos, k - 1);
        assert(t.alocacao_definida(pedidos[k - 1].0, pedidos[k - 1].1));
        lema_passo(t, pedidos[k - 1].0, pedidos[k - 1].1);
    }
}

proof fn lema_cursor_cresce(s: EstadoArena, pedidos: Seq<(usize, usize)>, i: int, j: int)
    requires
        s.valido(),
        pedidos_definidos(s, pedidos),
        0 <= i <= j <= pedidos.len(),
    ensures
        antes_do_pedido(s, pedidos, i).cursor() <= antes_do_pedido(s, pedidos, j).cursor(),
    decreases j - i,
{
    if i < j {
        lema_cursor_cresce(s, pedidos, i, j - 1);
        lema_um_pedido(s, pedidos, j);
        lema_estados_validos(s, pedidos, j - 1);
        let t = antes_do_pedido(s, pedidos, j - 1);
        assert(t.alocacao_definida(pedidos[j - 1].0, pedidos[j - 1].1));
        lema_passo(t, pedidos[j - 1].0, pedidos[j - 1].1);
    }
}

/// Blocks handed out between two resets never overlap: of any two requests, in any
/// run of requests made one after the other, the later block starts at or after the
/// end of the earlier one.
pub proof fn lei_blocos_entre_resets_nao_se_sobrepoem(
    s: EstadoArena,
    pedidos: Seq<(usize, usize)>,
    i: int,
    j: int,
)
    requires
        s.valido(),
        pedidos_definidos(s, pedidos),
        0 <= i < j < pedidos.len(),
        resultado_do_pedido(s, pedidos, i) is Some,
        resultado_do_pedido(s, pedidos, j) is Some,
    ensures
        resultado_do_pedido(s, pedidos, i)->0 + pedidos[i].0 <= resultado_do_pedido(s, pedidos, j)->0,
{
    lema_estados_validos(s, pedidos, i);
    let ti = antes_do_pedido(s, pedidos, i);
    assert(ti.alocacao_definida(pedidos[i].0, pedidos[i].1));
    lema_passo(ti, pedidos[i].0, pedidos[i].1);
    lema_um_pedido(s, pedidos, i + 1);
    lema_cursor_cresce(s, pedidos, i + 1, j);
    lema_estados_validos(s, pedidos, j);
    let tj = antes_do_pedido(s, pedidos, j);
    assert(tj.alocacao_definida(pedidos[j].0, pedidos[j].1));
    lema_passo(tj, pedidos[j].0, pedidos[j].1);
}

/// A request that does not fit changes nothing, so it can be repeated with the same answer.
pub proof fn lei_recusa_nao_altera(s: EstadoArena, bytes: usize, align: usize)
    requires
        s.resultado_alocar(bytes, align) is None,
    ensures
        s.apos_alocar(bytes, align) == s,
{
}

} // verus!
