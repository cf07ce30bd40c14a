use vstd::prelude::*;

verus! {

/// The largest dimension that this library hands back.
pub const MAX_DIM: u64 = 0xffff_ffff;

/// Why a dimension could not be computed.
#[derive(Clone, Copy, Debug, PartialEq, Eq, Structural)]
pub enum ConvError {
    /// The filter is larger than the padded input.
    InvalidFilterSize,
    /// A convolution with stride zero.
    InvalidStride,
    /// A transposed convolution on an input of dimension zero.
    InvalidInput,
    /// A transposed convolution whose output would be negative.
    NegativeOutput,
    /// A result above `u32::MAX`.
    DimensionOverflow,
    /// A layer chain description that is unreadable or incomplete.
    MalformedChainDescription,
}

/// A (transposed) convolutional layer.
#[derive(Clone, Copy, Debug, PartialEq, Eq, Structural)]
pub struct Layer {
    pub filter_size: u32,
    pub stride: u32,
    pub padding: u32,
    pub transposed: bool,
}

/// A computed dimension, as the `u32` that the executable functions return.
pub open spec fn to_dim(res: Result<int, ConvError>) -> Result<u32, ConvError> {
    match res {
        Ok(d) => Ok(d as u32),
        Err(e) => Err(e),
    }
}

/// One application of a convolution: `(n - f + 2p) / s + 1`.
pub open spec fn conv_step(n: int, f: int, p: int, s: int) -> int {
    (n - f + 2 * p) / s + 1
}

/// Output of `r` identical convolutions on an input of dimension `n`.
///
/// The filter must fit into the padded input before every application
/// (and once on entry when `r == 0`).
pub open spec fn conv_spec(n: int, f: int, p: int, s: int, r: nat) -> Result<int, ConvError>
    decreases r,
{
    if f > n + 2 * p {
        Err(ConvError::InvalidFilterSize)
    } else if r == 0 {
        Ok(n)
    } else if s == 0 {
        Err(ConvError::InvalidStride)
    } else if conv_step(n, f, p, s) > MAX_DIM {
        Err(ConvError::DimensionOverflow)
    } else if r == 1 {
        Ok(conv_step(n, f, p, s))
    } else {
        conv_spec(conv_step(n, f, p, s), f, p, s, (r - 1) as nat)
    }
}

/// Computes the output dimension of `repeat` identical convolutional layers
/// applied one after the other to an input of dimension `in_dim`.
pub fn conv_output_dim(
    in_dim: u32,
    filter_size: u32,
    padding: u32,
    stride: u32,
    repeat: u32,
) -> (r: Result<u32, ConvError>)
    ensures
        r == to_dim(
            conv_spec(in_dim as int, filter_size as int, padding as int, stride as int, repeat as nat),
        ),
{
    let f = filter_size as u64;
    let p = padding as u64;
    let s = stride as u64;
    let mut n = in_dim as u64;
    let mut left: u32 = repeat;
    if f > n + 2 * p {
        return Err(ConvError::InvalidFilterSize);
    }
    if repeat == 0 {
        return Ok(in_dim);
    }
    if s == 0 {
        return Err(ConvError::InvalidStride);
    }
    while left > 1
        invariant
            n <= MAX_DIM,
            f <= n + 2 * p,
            f == filter_size,
            p == padding,
            s == stride,
            s > 0,
            1 <= left <= repeat,
            conv_spec(in_dim as int, f as int, p as int, s as int, repeat as nat)
                == conv_spec(n as int, f as int, p as int, s as int, left as nat),
        decreases left,
    {
        let next = conv_step_exec(n, f, p, s);
        if next > MAX_DIM {
            return Err(ConvError::DimensionOverflow);
        }
        if f > next + 2 * p {
            assert(conv_spec(next as int, f as int, p as int, s as int, (left - 1) as nat)
                == Err::<int, ConvError>(ConvError::InvalidFilterSize));
            return Err(ConvError::InvalidFilterSize);
        }
        n = next;
        left = left - 1;
    }
    let next = conv_step_exec(n, f, p, s);
    if next > MAX_DIM {
        return Err(ConvError::DimensionOverflow);
    }
    Ok(next as u32)
}

fn conv_step_exec(n: u64, f: u64, p: u64, s: u64) -> (r: u64)
    requires
        n <= MAX_DIM,
        p <= MAX_DIM,
        f <= n + 2 * p,
        s > 0,
    ensures
        r == conv_step(n as int, f as int, p as int, s as int),
{
    let d = n + 2 * p - f;
    proof {
        assert(d / s <= d) by (nonlinear_arith)
            requires s > 0;
    }
    d / s + 1
}

/// One application of a transposed convolution: `(n - 1) * s + f - 2p`.
pub open spec fn transposed_step(n: int, f: int, p: int, s: int) -> int {
    (n - 1) * s + f - 2 * p
}

/// Output of `r` identical transposed convolutions on an input of dimension `n`.
///
/// Before every application the input must be positive and the output must not
/// be negative (both are also checked on entry when `r == 0`).
pub open spec fn transposed_spec(n: int, f: int, p: int, s: int, r: nat) -> Result<int, ConvError>
    decreases r,
{
    if n <= 0 {
        Err(ConvError::InvalidInput)
    } else if transposed_step(n, f, p, s) < 0 {
        Err(ConvError::NegativeOutput)
    } else if r == 0 {
        Ok(n)
    } else if transposed_step(n, f, p, s) > MAX_DIM {
        Err(ConvError::DimensionOverflow)
    } else if r == 1 {
        Ok(transposed_step(n, f, p, s))
    } else {
        transposed_spec(transposed_step(n, f, p, s), f, p, s, (r - 1) as nat)
    }
}

/// `(n - 1) * s + f`, which cannot overflow a `u64` for `u32`-sized operands.
fn transposed_span(n: u64, f: u64, s: u64) -> (r: u64)
    requires
        1 <= n <= MAX_DIM,
        f <= MAX_DIM,
        s <= MAX_DIM,
    ensures
        r == (n - 1) * s + f,
{
    proof {
        assert((n - 1) * s <= MAX_DIM * MAX_DIM) by (nonlinear_arith)
            requires 1 <= n <= MAX_DIM, s <= MAX_DIM;
    }
    (n - 1) * s + f
}

/// Computes the output dimension of `repeat` identical transposed convolutional
/// layers applied one after the other to an input of dimension `in_dim`.
pub fn transposed_conv_output_dim(
    in_dim: u32,
    filter_size: u32,
    padding: u32,
    stride: u32,
    repeat: u32,
) -> (r: Result<u32, ConvError>)
    ensures
        r == to_dim(
            transposed_spec(in_dim as int, filter_size as int, padding as int, stride as int, repeat as nat),
        ),
{
    let f = filter_size as u64;
    let p = padding as u64;
    let s = stride as u64;
    let mut n = in_dim as u64;
    let mut left: u32 = repeat;
    if n == 0 {
        return Err(ConvError::InvalidInput);
    }
    let mut span = transposed_span(n, f, s);
    if span < 2 * p {
        return Err(ConvError::NegativeOutput);
    }
    if repeat == 0 {
        return Ok(in_dim);
    }
    while left > 1
        invariant
            1 <= n <= MAX_DIM,
            f == filter_size,
            p == padding,
            s == stride,
            span == (n - 1) * s + f,
            span >= 2 * p,
            1 <= left <= repeat,
            transposed_spec(in_dim as int, f as int, p as int, s as int, repeat as nat)
                == transposed_spec(n as int, f as int, p as int, s as int, left as nat),
        decreases left,
    {
        let next = span - 2 * p;
        if next > MAX_DIM {
            return Err(ConvError::DimensionOverflow);
        }
        if next == 0 {
            assert(transposed_spec(next as int, f as int, p as int, s as int, (left - 1) as nat)
                == Err::<int, ConvError>(ConvError::InvalidInput));
            return Err(ConvError::InvalidInput);
        }
        let next_span = transposed_span(next, f, s);
        if next_span < 2 * p {
            assert(transposed_spec(next as int, f as int, p as int, s as int, (left - 1) as nat)
                == Err::<int, ConvError>(ConvError::NegativeOutput));
            return Err(ConvError::NegativeOutput);
        }
        n = next;
        span = next_span;
        left = left - 1;
    }
    let next = span - 2 * p;
    if next > MAX_DIM {
        return Err(ConvError::DimensionOverflow);
    }
    Ok(next as u32)
}

/// Output of one layer on an input of dimension `n`.
pub open spec fn layer_spec(layer: Layer, n: int) -> Result<int, ConvError> {
    if layer.transposed {
        transposed_spec(n, layer.filter_size as int, layer.padding as int, layer.stride as int, 1)
    } else {
        conv_spec(n, layer.filter_size as int, layer.padding as int, layer.stride as int, 1)
    }
}

/// Output of the layers, taken from first to last, on an input of dimension `n`;
/// the first failing layer decides the error.
pub open spec fn chain_spec(layers: Seq<Layer>, n: int) -> Result<int, ConvError>
    decreases layers.len(),
{
    if layers.len() == 0 {
        Ok(n)
    } else {
        match layer_spec(layers[0], n) {
            Ok(m) => chain_spec(layers.drop_first(), m),
            Err(e) => Err(e),
        }
    }
}

/// Computes the dimension after passing an input of dimension `in_dim` through
/// all the `layers`, in order.
pub fn dim_after_layers(layers: &[Layer], in_dim: u32) -> (r: Result<u32, ConvError>)
    ensures
        r == to_dim(chain_spec(layers@, in_dim as int)),
{
    let mut d: u32 = in_dim;
    let mut i: usize = 0;
    assert(layers@.subrange(0, layers@.len() as int) =~= layers@);
    while i < layers.len()
        invariant
            i <= layers@.len(),
            chain_spec(layers@, in_dim as int)
                == chain_spec(layers@.subrange(i as int, layers@.len() as int), d as int),
        decreases layers@.len() - i,
    {
        let layer = layers[i];
        let out = if layer.transposed {
            transposed_conv_output_dim(d, layer.filter_size, layer.padding, layer.stride, 1)
        } else {
            conv_output_dim(d, layer.filter_size, layer.padding, layer.stride, 1)
        };
        proof {
            let rest = layers@.subrange(i as int, layers@.len() as int);
            assert(rest.drop_first() =~= layers@.subrange(i + 1, layers@.len() as int));
        }
        match out {
            Ok(m) => {
                d = m;
            },
            Err(e) => {
                return Err(e);
            },
        }
        i = i + 1;
    }
    assert(layers@.subrange(i as int, layers@.len() as int) =~= Seq::<Layer>::empty());
    Ok(d)
}

/// With no repetition a convolution hands its input back unchanged, whenever
/// the filter fits into the padded input.
pub proof fn lemma_conv_zero_repeat_is_identity(n: int, f: int, p: int, s: int)
    requires
        0 <= n,
        0 <= f <= n + 2 * p,
        0 <= p,
        0 <= s,
    ensures
        conv_spec(n, f, p, s, 0) == Ok::<int, ConvError>(n),
{
}

/// A filter larger than the padded input is rejected with
/// `InvalidFilterSize`, whatever the stride and the number of repetitions.
pub proof fn lemma_filter_too_large_is_rejected(n: int, f: int, p: int, s: int, r: nat)
    requires
        f > n + 2 * p,
    ensures
        conv_spec(n, f, p, s, r) == Err::<int, ConvError>(ConvError::InvalidFilterSize),
{
}

/// Repeats compose: `a + b` identical convolutions (with `b >= 1`) give what
/// `b` of them give on the output of the first `a`, and an error of the first
/// `a` is the error of the whole.
pub proof fn lemma_conv_repeats_compose(n: int, f: int, p: int, s: int, a: nat, b: nat)
    requires
        b >= 1,
    ensures
        conv_spec(n, f, p, s, a + b) == match conv_spec(n, f, p, s, a) {
            Ok(d) => conv_spec(d, f, p, s, b),
            Err(e) => Err(e),
        },
    decreases a,
{
    if a >= 2 && f <= n + 2 * p && s != 0 && conv_step(n, f, p, s) <= MAX_DIM {
        lemma_conv_repeats_compose(conv_step(n, f, p, s), f, p, s, (a - 1) as nat, b);
        assert((a - 1) as nat + b == (a + b - 1) as nat);
    }
}

/// A transposed convolution undoes the shape change of the convolution with
/// the same filter, padding and stride up to the remainder of the division by
/// the stride: the dimension `n` comes back as `n - (n - f + 2p) % s`, which is
/// `n` itself when the stride divides `n - f + 2p`.
pub proof fn lemma_transposed_undoes_conv(n: int, f: int, p: int, s: int)
    requires
        0 <= n <= MAX_DIM,
        0 <= p,
        0 <= f <= n + 2 * p,
        s > 0,
        conv_step(n, f, p, s) <= MAX_DIM,
        n - (n - f + 2 * p) % s >= 0,
    ensures
        conv_spec(n, f, p, s, 1) == Ok::<int, ConvError>(conv_step(n, f, p, s)),
        transposed_spec(conv_step(n, f, p, s), f, p, s, 1)
            == Ok::<int, ConvError>(n - (n - f + 2 * p) % s),
        (n - f + 2 * p) % s == 0 ==> transposed_spec(conv_step(n, f, p, s), f, p, s, 1)
            == Ok::<int, ConvError>(n),
{
    let d = n - f + 2 * p;
    let q = d / s;
    assert(q >= 0 && d == q * s + d % s) by (nonlinear_arith)
        requires d >= 0, s > 0, q == d / s;
    assert(transposed_step(conv_step(n, f, p, s), f, p, s) == n - d % s);
}

} // verus!
