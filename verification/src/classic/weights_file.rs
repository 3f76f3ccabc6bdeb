//! The binary format of weight files: a header of 64 bytes, then the weights as little-endian
//! single-precision bit patterns.

use vstd::prelude::*;
use vstd::string::*;

use crate::classic::config::{ActivationType, NormType, PosEncodingType, TransformerConfig};
use crate::text;

verus! {

/// The length of the header.
pub const HEADER_LEN: usize = 64;

/// The version of the format.
pub const FORMAT_VERSION: u32 = 1;

/// What can be wrong with a weight file, in the order in which it is looked for.
#[derive(Debug, Clone, Copy, PartialEq, Eq, Structural)]
pub enum WeightsError {
    /// Fewer bytes than a header.
    TooSmall,
    /// The magic bytes are not there.
    BadMagic,
    /// Another version of the format.
    UnsupportedVersion { version: u32 },
    /// No such normalisation.
    UnknownNorm,
    /// No such activation.
    UnknownActivation,
    /// No such positional encoding.
    UnknownPosEncoding,
    /// Another number of bytes than the header announces.
    LengthMismatch { expected: u128, actual: usize },
}

/// The magic bytes `SRXF`.
pub open spec fn magic() -> Seq<u8> {
    seq![0x53u8, 0x52, 0x58, 0x46]
}

/// A number as four bytes, the least significant first.
#[verifier::opaque]
pub open spec fn le4(n: u32) -> Seq<u8> {
    seq![
        (n % 256) as u8,
        (n / 256 % 256) as u8,
        (n / 65536 % 256) as u8,
        (n / 16777216 % 256) as u8,
    ]
}

/// The number that four bytes make.
#[verifier::opaque]
pub open spec fn from_le4(b: Seq<u8>) -> u32 {
    (b[0] as int + 256 * (b[1] as int) + 65536 * (b[2] as int) + 16777216 * (b[3] as int)) as u32
}

/// A number as eight bytes, the least significant first.
pub open spec fn le8(n: u64) -> Seq<u8> {
    le4((n % 0x1_0000_0000) as u32) + le4((n / 0x1_0000_0000) as u32)
}

/// The number that eight bytes make.
pub open spec fn from_le8(b: Seq<u8>) -> u64 {
    (from_le4(b.subrange(0, 4)) as int + 0x1_0000_0000 * (from_le4(b.subrange(4, 8)) as int)) as u64
}

/// The low 32 bits of a dimension.
pub open spec fn low32(n: usize) -> u32 {
    (n as nat % 0x1_0000_0000) as u32
}

pub open spec fn norm_code(norm: NormType) -> u32 {
    match norm {
        NormType::LayerNorm => 0,
        NormType::RMSNorm => 1,
    }
}

pub open spec fn activation_code(activation: ActivationType) -> u32 {
    match activation {
        ActivationType::Gelu => 0,
        ActivationType::Relu => 1,
    }
}

pub open spec fn position_code(encoding: PosEncodingType) -> u32 {
    match encoding {
        PosEncodingType::Sinusoidal => 0,
        PosEncodingType::Learned => 1,
    }
}

pub open spec fn flag(b: bool) -> u8 {
    if b {
        1
    } else {
        0
    }
}

/// The two flags and the padding behind them.
pub open spec fn flags(tied: bool, biased: bool) -> Seq<u8> {
    seq![flag(tied), flag(biased), 0, 0, 0, 0, 0, 0]
}

/// The header of a file: magic bytes, version, geometry, flags, padding, number of weights.
#[verifier::opaque]
pub open spec fn header(config: TransformerConfig, count: u64) -> Seq<u8> {
    magic() + le4(FORMAT_VERSION) + le4(low32(config.vocab_size)) + le4(low32(config.d_model))
        + le4(low32(config.n_heads)) + le4(low32(config.n_layers)) + le4(low32(config.d_ff)) + le4(
        low32(config.max_seq_len),
    ) + le4(config.eps_bits) + le4(norm_code(config.norm_type)) + le4(
        activation_code(config.activation),
    ) + le4(position_code(config.pos_encoding)) + flags(
        config.tie_word_embeddings,
        config.use_bias,
    ) + le8(count)
}

/// The bytes of weights.
pub open spec fn payload(weights: Seq<u32>) -> Seq<u8>
    decreases weights.len(),
{
    if weights.len() == 0 {
        Seq::empty()
    } else {
        payload(weights.drop_last()) + le4(weights.last())
    }
}

/// A whole file.
pub open spec fn file_bytes(config: TransformerConfig, weights: Seq<u32>) -> Seq<u8> {
    header(config, config.param_total() as u64) + payload(weights)
}

/// The number at a place of a file.
pub open spec fn word_at(raw: Seq<u8>, at: int) -> u32 {
    from_le4(raw.subrange(at, at + 4))
}

/// The number of weights that a file announces.
pub open spec fn announced(raw: Seq<u8>) -> u64 {
    from_le8(raw.subrange(56, 64))
}

/// The configuration that the header of a file describes.
pub open spec fn described(raw: Seq<u8>) -> TransformerConfig {
    TransformerConfig {
        vocab_size: word_at(raw, 8) as usize,
        d_model: word_at(raw, 12) as usize,
        n_heads: word_at(raw, 16) as usize,
        n_layers: word_at(raw, 20) as usize,
        d_ff: word_at(raw, 24) as usize,
        max_seq_len: word_at(raw, 28) as usize,
        eps_bits: word_at(raw, 32),
        norm_type: if word_at(raw, 36) == 0 {
            NormType::LayerNorm
        } else {
            NormType::RMSNorm
        },
        activation: if word_at(raw, 40) == 0 {
            ActivationType::Gelu
        } else {
            ActivationType::Relu
        },
        pos_encoding: if word_at(raw, 44) == 0 {
            PosEncodingType::Sinusoidal
        } else {
            PosEncodingType::Learned
        },
        tie_word_embeddings: raw[48] != 0,
        use_bias: raw[49] != 0,
    }
}

/// The weights of a file, as many as it announces.
pub open spec fn stored(raw: Seq<u8>) -> Seq<u32> {
    Seq::new(announced(raw) as nat, |i: int| word_at(raw, HEADER_LEN + 4 * i))
}

/// The first thing wrong with a file, if there is any.
pub open spec fn fault(raw: Seq<u8>) -> Option<WeightsError> {
    if raw.len() < HEADER_LEN {
        Some(WeightsError::TooSmall)
    } else if raw.subrange(0, 4) != magic() {
        Some(WeightsError::BadMagic)
    } else if word_at(raw, 4) != FORMAT_VERSION {
        Some(WeightsError::UnsupportedVersion { version: word_at(raw, 4) })
    } else if word_at(raw, 36) > 1 {
        Some(WeightsError::UnknownNorm)
    } else if word_at(raw, 40) > 1 {
        Some(WeightsError::UnknownActivation)
    } else if word_at(raw, 44) > 1 {
        Some(WeightsError::UnknownPosEncoding)
    } else if raw.len() != HEADER_LEN + 4 * announced(raw) {
        Some(
            WeightsError::LengthMismatch {
                expected: (HEADER_LEN + 4 * announced(raw)) as u128,
                actual: raw.len() as usize,
            },
        )
    } else {
        None
    }
}

impl WeightsError {
    /// What an error is reported as.
    pub open spec fn report(self) -> Seq<char> {
        match self {
            WeightsError::TooSmall => "File too small (< 64 bytes)"@,
            WeightsError::BadMagic => "Invalid magic bytes"@,
            WeightsError::UnsupportedVersion { version } => "Unsupported version: "@
                + text::decimal(version as nat),
            WeightsError::UnknownNorm => "Unknown norm_type"@,
            WeightsError::UnknownActivation => "Unknown activation"@,
            WeightsError::UnknownPosEncoding => "Unknown pos_encoding"@,
            WeightsError::LengthMismatch { expected, actual } =>
                "File byte length mismatch: expected "@ + text::decimal(expected as nat) + ", got "@
                + text::decimal(actual as nat),
        }
    }

    /// Words the error.
    pub fn message(&self) -> (message: String)
        ensures
            message@ == self.report(),
    {
        match self {
            WeightsError::TooSmall => "File too small (< 64 bytes)".to_string(),
            WeightsError::BadMagic => "Invalid magic bytes".to_string(),
            WeightsError::UnsupportedVersion { version } => {
                let mut message: String = "Unsupported version: ".to_string();
                message.append(text::decimal_string(*version as u128).as_str());
                message
            },
            WeightsError::UnknownNorm => "Unknown norm_type".to_string(),
            WeightsError::UnknownActivation => "Unknown activation".to_string(),
            WeightsError::UnknownPosEncoding => "Unknown pos_encoding".to_string(),
            WeightsError::LengthMismatch { expected, actual } => {
                let mut message: String = "File byte length mismatch: expected ".to_string();
                message.append(text::decimal_string(*expected).as_str());
                message.append(", got ");
                message.append(text::decimal_string(*actual as u128).as_str());
                message
            },
        }
    }
}

fn push_le4(bytes: &mut Vec<u8>, n: u32)
    ensures
        final(bytes)@ == old(bytes)@ + le4(n),
{
    let ghost before = bytes@;
    bytes.push((n % 256) as u8);
    bytes.push((n / 256 % 256) as u8);
    bytes.push((n / 65536 % 256) as u8);
    bytes.push((n / 16777216 % 256) as u8);
    proof {
        reveal(le4);
    }
    assert(bytes@ =~= before + le4(n));
}

fn push_dimension(bytes: &mut Vec<u8>, n: usize)
    ensures
        final(bytes)@ == old(bytes)@ + le4(low32(n)),
{
    push_le4(bytes, (n as u64 % 0x1_0000_0000u64) as u32);
}

fn push_flags(bytes: &mut Vec<u8>, tied: bool, biased: bool)
    ensures
        final(bytes)@ == old(bytes)@ + flags(tied, biased),
{
    let ghost before = bytes@;
    bytes.push(if tied {
        1
    } else {
        0
    });
    bytes.push(if biased {
        1
    } else {
        0
    });
    bytes.push(0);
    bytes.push(0);
    bytes.push(0);
    bytes.push(0);
    bytes.push(0);
    bytes.push(0);
    assert(bytes@ =~= before + flags(tied, biased));
}

fn push_le8(bytes: &mut Vec<u8>, n: u64)
    ensures
        final(bytes)@ == old(bytes)@ + le8(n),
{
    let ghost before = bytes@;
    push_le4(bytes, (n % 0x1_0000_0000) as u32);
    push_le4(bytes, (n / 0x1_0000_0000) as u32);
    assert(bytes@ =~= before + le8(n));
}

fn write_header(config: &TransformerConfig, count: u64) -> (bytes: Vec<u8>)
    ensures
        bytes@ == header(*config, count),
{
    let mut bytes: Vec<u8> = Vec::new();
    bytes.push(0x53);
    bytes.push(0x52);
    bytes.push(0x58);
    bytes.push(0x46);
    assert(bytes@ =~= magic());
    let norm: u32 = match config.norm_type {
        NormType::LayerNorm => 0,
        NormType::RMSNorm => 1,
    };
    let activation: u32 = match config.activation {
        ActivationType::Gelu => 0,
        ActivationType::Relu => 1,
    };
    let position: u32 = match config.pos_encoding {
        PosEncodingType::Sinusoidal => 0,
        PosEncodingType::Learned => 1,
    };
    push_le4(&mut bytes, FORMAT_VERSION);
    push_dimension(&mut bytes, config.vocab_size);
    push_dimension(&mut bytes, config.d_model);
    push_dimension(&mut bytes, config.n_heads);
    push_dimension(&mut bytes, config.n_layers);
    push_dimension(&mut bytes, config.d_ff);
    push_dimension(&mut bytes, config.max_seq_len);
    push_le4(&mut bytes, config.eps_bits);
    push_le4(&mut bytes, norm);
    push_le4(&mut bytes, activation);
    push_le4(&mut bytes, position);
    push_flags(&mut bytes, config.tie_word_embeddings, config.use_bias);
    push_le8(&mut bytes, count);
    proof {
        reveal(header);
    }
    bytes
}

/// The header has its fixed length.
pub proof fn lemma_header_len(config: TransformerConfig, count: u64)
    ensures
        header(config, count).len() == HEADER_LEN,
{
    reveal(header);
    reveal(le4);
}

/// Writes a weight file.
pub fn encode_weights_file(config: &TransformerConfig, weights: &[u32]) -> (bytes: Vec<u8>)
    requires
        config.countable(),
        weights@.len() == config.param_total(),
    ensures
        bytes@ == file_bytes(*config, weights@),
        bytes@.len() == HEADER_LEN + 4 * weights@.len(),
{
    let count: u64 = config.param_count() as u64;
    let mut bytes: Vec<u8> = write_header(config, count);
    let ghost head = bytes@;
    proof {
        lemma_header_len(*config, count);
    }
    for i in 0..weights.len()
        invariant
            bytes@ == head + payload(weights@.take(i as int)),
            bytes@.len() == 64 + 4 * i,
    {
        proof {
            reveal(le4);
        }
        push_le4(&mut bytes, weights[i]);
        assert(weights@.take(i + 1).drop_last() =~= weights@.take(i as int));
        assert(bytes@ =~= head + payload(weights@.take(i + 1)));
    }
    assert(weights@.take(weights@.len() as int) =~= weights@);
    bytes
}

fn read_word(raw: &[u8], at: usize) -> (n: u32)
    requires
        at + 4 <= raw@.len(),
    ensures
        n == word_at(raw@, at as int),
{
    proof {
        reveal(from_le4);
    }
    let total: usize = raw.len();
    let b0: u32 = raw[at] as u32;
    let b1: u32 = raw[at + 1] as u32;
    let b2: u32 = raw[at + 2] as u32;
    let b3: u32 = raw[at + 3] as u32;
    let ghost part = raw@.subrange(at as int, at + 4);
    assert(part[0] == b0 && part[1] == b1 && part[2] == b2 && part[3] == b3);
    b0 + 256 * b1 + 65536 * b2 + 16777216 * b3
}

/// Reads a weight file: the configuration of its header, and its weights.
pub fn parse_weights_file(raw: &[u8]) -> (parsed: Result<
    (TransformerConfig, Vec<u32>),
    WeightsError,
>)
    ensures
        match (parsed, fault(raw@)) {
            (Ok((config, weights)), None) => config == described(raw@) && weights@ == stored(raw@),
            (Err(error), Some(found)) => error == found,
            _ => false,
        },
{
    let len: usize = raw.len();
    if len < HEADER_LEN {
        return Err(WeightsError::TooSmall);
    }
    let ghost head = raw@.subrange(0, 4);
    assert(head[0] == raw@[0] && head[1] == raw@[1] && head[2] == raw@[2] && head[3] == raw@[3]);
    if raw[0] != 0x53 || raw[1] != 0x52 || raw[2] != 0x58 || raw[3] != 0x46 {
        return Err(WeightsError::BadMagic);
    }
    assert(head =~= magic());
    let version: u32 = read_word(raw, 4);
    if version != FORMAT_VERSION {
        return Err(WeightsError::UnsupportedVersion { version });
    }
    let norm: u32 = read_word(raw, 36);
    let activation: u32 = read_word(raw, 40);
    let position: u32 = read_word(raw, 44);
    if norm > 1 {
        return Err(WeightsError::UnknownNorm);
    }
    if activation > 1 {
        return Err(WeightsError::UnknownActivation);
    }
    if position > 1 {
        return Err(WeightsError::UnknownPosEncoding);
    }
    let low: u32 = read_word(raw, 56);
    let high: u32 = read_word(raw, 60);
    let ghost eight = raw@.subrange(56, 64);
    assert(eight.subrange(0, 4) =~= raw@.subrange(56, 60));
    assert(eight.subrange(4, 8) =~= raw@.subrange(60, 64));
    let count: u64 = low as u64 + 0x1_0000_0000u64 * (high as u64);
    assert(count == announced(raw@));
    let expected: u128 = HEADER_LEN as u128 + 4 * (count as u128);
    if len as u128 != expected {
        return Err(WeightsError::LengthMismatch { expected, actual: len });
    }
    let config: TransformerConfig = TransformerConfig {
        vocab_size: read_word(raw, 8) as usize,
        d_model: read_word(raw, 12) as usize,
        n_heads: read_word(raw, 16) as usize,
        n_layers: read_word(raw, 20) as usize,
        d_ff: read_word(raw, 24) as usize,
        max_seq_len: read_word(raw, 28) as usize,
        eps_bits: read_word(raw, 32),
        norm_type: if norm == 0 {
            NormType::LayerNorm
        } else {
            NormType::RMSNorm
        },
        activation: if activation == 0 {
            ActivationType::Gelu
        } else {
            ActivationType::Relu
        },
        pos_encoding: if position == 0 {
            PosEncodingType::Sinusoidal
        } else {
            PosEncodingType::Learned
        },
        tie_word_embeddings: raw[48] != 0,
        use_bias: raw[49] != 0,
    };
    let mut weights: Vec<u32> = Vec::new();
    let mut at: usize = HEADER_LEN;
    while at < len
        invariant
            len == raw@.len(),
            len == 64 + 4 * announced(raw@),
            at == 64 + 4 * weights@.len(),
            at <= len,
            weights@ == stored(raw@).take(weights@.len() as int),
        decreases len - at,
    {
        weights.push(read_word(raw, at));
        at = at + 4;
        assert(weights@ =~= stored(raw@).take(weights@.len() as int));
    }
    assert(weights@ =~= stored(raw@));
    Ok((config, weights))
}

/// Four bytes give back the number that they were made of.
pub proof fn law_le4_round_trip(n: u32)
    ensures
        from_le4(le4(n)) == n,
{
    reveal(le4);
    reveal(from_le4);
    let b = le4(n);
    assert(b[0] == n % 256 && b[1] == n / 256 % 256 && b[2] == n / 65536 % 256 && b[3] == n
        / 16777216 % 256);
}

/// Eight bytes give back the number that they were made of.
pub proof fn law_le8_round_trip(n: u64)
    ensures
        from_le8(le8(n)) == n,
{
    let low = (n % 0x1_0000_0000) as u32;
    let high = (n / 0x1_0000_0000) as u32;
    let b = le8(n);
    reveal(le4);
    law_le4_round_trip(low);
    law_le4_round_trip(high);
    assert(b.subrange(0, 4) =~= le4(low));
    assert(b.subrange(4, 8) =~= le4(high));
}

#[verifier::spinoff_prover]
#[verifier::rlimit(100)]
pub proof fn lemma_header_words(config: TransformerConfig, count: u64)
    ensures
        header(config, count).len() == 64,
        header(config, count).subrange(0, 4) == magic(),
        header(config, count).subrange(4, 8) == le4(FORMAT_VERSION),
        header(config, count).subrange(8, 12) == le4(low32(config.vocab_size)),
        header(config, count).subrange(12, 16) == le4(low32(config.d_model)),
        header(config, count).subrange(16, 20) == le4(low32(config.n_heads)),
        header(config, count).subrange(20, 24) == le4(low32(config.n_layers)),
        header(config, count).subrange(24, 28) == le4(low32(config.d_ff)),
        header(config, count).subrange(28, 32) == le4(low32(config.max_seq_len)),
        header(config, count).subrange(32, 36) == le4(config.eps_bits),
        header(config, count).subrange(36, 40) == le4(norm_code(config.norm_type)),
        header(config, count).subrange(40, 44) == le4(activation_code(config.activation)),
        header(config, count).subrange(44, 48) == le4(position_code(config.pos_encoding)),
        header(config, count)[48] == flag(config.tie_word_embeddings),
        header(config, count)[49] == flag(config.use_bias),
        header(config, count).subrange(56, 64) == le8(count),
{
    reveal(header);
    reveal(le4);
    let h = header(config, count);
    assert(h.subrange(0, 4) =~= magic());
    assert(h.subrange(4, 8) =~= le4(FORMAT_VERSION));
    assert(h.subrange(8, 12) =~= le4(low32(config.vocab_size)));
    assert(h.subrange(12, 16) =~= le4(low32(config.d_model)));
    assert(h.subrange(16, 20) =~= le4(low32(config.n_heads)));
    assert(h.subrange(20, 24) =~= le4(low32(config.n_layers)));
    assert(h.subrange(24, 28) =~= le4(low32(config.d_ff)));
    assert(h.subrange(28, 32) =~= le4(low32(config.max_seq_len)));
    assert(h.subrange(32, 36) =~= le4(config.eps_bits));
    assert(h.subrange(36, 40) =~= le4(norm_code(config.norm_type)));
    assert(h.subrange(40, 44) =~= le4(activation_code(config.activation)));
    assert(h.subrange(44, 48) =~= le4(position_code(config.pos_encoding)));
    assert(h.subrange(56, 64) =~= le8(count));
}

/// Every weight stands at its place in the payload.
pub proof fn lemma_payload(weights: Seq<u32>, i: int)
    ensures
        payload(weights).len() == 4 * weights.len(),
        0 <= i < weights.len() ==> payload(weights).subrange(4 * i, 4 * i + 4) == le4(weights[i]),
    decreases weights.len(),
{
    reveal(le4);
    if weights.len() > 0 {
        let front = weights.drop_last();
        let n = front.len() as int;
        lemma_payload(front, i);
        let whole = payload(weights);
        if 0 <= i < n {
            assert(whole.subrange(4 * i, 4 * i + 4) =~= payload(front).subrange(4 * i, 4 * i + 4));
        } else if i == n {
            assert(whole.subrange(4 * i, 4 * i + 4) =~= le4(weights.last()));
        }
    }
}

/// Whether every dimension of a configuration fits the fields of the header.
pub open spec fn storable(config: TransformerConfig) -> bool {
    &&& config.vocab_size < 0x1_0000_0000
    &&& config.d_model < 0x1_0000_0000
    &&& config.n_heads < 0x1_0000_0000
    &&& config.n_layers < 0x1_0000_0000
    &&& config.d_ff < 0x1_0000_0000
    &&& config.max_seq_len < 0x1_0000_0000
}

/// A number in the header is read back from the file.
proof fn lemma_word(h: Seq<u8>, rest: Seq<u8>, at: int, n: u32)
    requires
        0 <= at <= h.len() - 4,
        h.subrange(at, at + 4) == le4(n),
    ensures
        word_at(h + rest, at) == n,
{
    law_le4_round_trip(n);
    assert((h + rest).subrange(at, at + 4) =~= h.subrange(at, at + 4));
}

proof fn lemma_header_read(config: TransformerConfig, count: u64, rest: Seq<u8>)
    requires
        storable(config),
    ensures
        ({
            let raw = header(config, count) + rest;
            &&& raw.len() == 64 + rest.len()
            &&& raw.subrange(0, 4) == magic()
            &&& word_at(raw, 4) == FORMAT_VERSION
            &&& word_at(raw, 36) <= 1
            &&& word_at(raw, 40) <= 1
            &&& word_at(raw, 44) <= 1
            &&& announced(raw) == count
            &&& described(raw) == config
        }),
{
    let h = header(config, count);
    let raw = h + rest;
    lemma_header_words(config, count);
    lemma_word(h, rest, 4, FORMAT_VERSION);
    lemma_word(h, rest, 8, low32(config.vocab_size));
    lemma_word(h, rest, 12, low32(config.d_model));
    lemma_word(h, rest, 16, low32(config.n_heads));
    lemma_word(h, rest, 20, low32(config.n_layers));
    lemma_word(h, rest, 24, low32(config.d_ff));
    lemma_word(h, rest, 28, low32(config.max_seq_len));
    lemma_word(h, rest, 32, config.eps_bits);
    lemma_word(h, rest, 36, norm_code(config.norm_type));
    lemma_word(h, rest, 40, activation_code(config.activation));
    lemma_word(h, rest, 44, position_code(config.pos_encoding));
    law_le8_round_trip(count);
    assert(raw.subrange(0, 4) =~= h.subrange(0, 4));
    assert(raw.subrange(56, 64) =~= h.subrange(56, 64));
    assert(raw[48] == h[48] && raw[49] == h[49]);
}

/// A file gives back the configuration and the weights that it was written from.
pub proof fn law_weights_file_round_trip(config: TransformerConfig, weights: Seq<u32>)
    requires
        storable(config),
        config.param_total() == weights.len(),
        weights.len() <= u64::MAX,
    ensures
        fault(file_bytes(config, weights)) is None,
        described(file_bytes(config, weights)) == config,
        stored(file_bytes(config, weights)) == weights,
{
    let count = config.param_total() as u64;
    let h = header(config, count);
    let raw = file_bytes(config, weights);
    lemma_header_read(config, count, payload(weights));
    lemma_header_len(config, count);
    lemma_payload(weights, 0);
    assert forall|i: int| 0 <= i < weights.len() implies word_at(raw, HEADER_LEN + 4 * i)
        == weights[i] by {
        lemma_payload(weights, i);
        law_le4_round_trip(weights[i]);
        assert(raw.subrange(64 + 4 * i, 64 + 4 * i + 4) =~= payload(weights).subrange(
            4 * i,
            4 * i + 4,
        ));
    }
    assert(stored(raw) =~= weights);
}

} // verus!
