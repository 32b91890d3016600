//! The GPU cards: which adapters are shown, their names, and their
//! dedicated and shared memory lines.

use vstd::prelude::*;
use crate::format::{decimal, format_gb_tenths, gb_text_tenths, gb_tenths, push_decimal};
use crate::segments::SegmentUsage;

verus! {

/// The text `String::from_utf8_lossy` makes of `bytes`: the bytes decoded as
/// UTF-8, each invalid sequence replaced by U+FFFD.
pub uninterp spec fn utf8_lossy_text(bytes: Seq<u8>) -> Seq<char>;

/// Whether every byte is ASCII.
pub open spec fn is_ascii_bytes(bytes: Seq<u8>) -> bool {
    forall|i: int| 0 <= i < bytes.len() ==> bytes[i] < 128
}

/// ASCII bytes read as characters, one per byte.
pub open spec fn ascii_chars(bytes: Seq<u8>) -> Seq<char> {
    Seq::new(bytes.len(), |i: int| bytes[i] as char)
}

/// Calls `String::from_utf8_lossy`. Trusted: the result is named
/// `utf8_lossy_text` of the bytes, and ASCII input (valid UTF-8, one
/// character per byte) comes back unchanged as characters; nothing else of
/// the decoding is stated.
#[verifier::external_body]
fn utf8_lossy(bytes: &Vec<u8>) -> (s: String)
    ensures
        s@ == utf8_lossy_text(bytes@),
        is_ascii_bytes(bytes@) ==> s@ == ascii_chars(bytes@),
{
    String::from_utf8_lossy(bytes.as_slice()).into_owned()
}

/// Whether `i` is the position of the first NUL byte of `raw`.
pub open spec fn is_first_nul(raw: Seq<u8>, i: int) -> bool {
    &&& 0 <= i < raw.len()
    &&& raw[i] == 0
    &&& forall|j: int| 0 <= j < i ==> raw[j] != 0
}

/// Length of the NUL-terminated text in `raw` (all of it without a NUL).
pub open spec fn description_len(raw: Seq<u8>) -> int {
    if exists|i: int| is_first_nul(raw, i) {
        choose|i: int| is_first_nul(raw, i)
    } else {
        raw.len() as int
    }
}

/// The name shown for adapter `index`: its driver description (the bytes
/// before the first NUL, decoded leniently) when it could be read, else
/// "GPU <index>".
pub open spec fn adapter_name_text(index: u32, description: Option<Seq<u8>>) -> Seq<char> {
    match description {
        Some(raw) => utf8_lossy_text(raw.subrange(0, description_len(raw))),
        None => seq!['G', 'P', 'U', ' '] + decimal(index as nat),
    }
}

/// Whether the adapter is shown: its hardware property must be supported,
/// readable and non-zero (software rasterizers and virtual adapters are not).
pub open spec fn is_hardware(supported: bool, value: Option<u8>) -> bool {
    supported && value is Some && value->0 != 0
}

/// Whether the adapter is shown: `supported` tells whether it has the
/// hardware property, `value` is the property as read (`None` when reading
/// failed).
pub fn is_hardware_adapter(supported: bool, value: Option<u8>) -> (b: bool)
    ensures
        b == is_hardware(supported, value),
{
    if !supported {
        return false;
    }
    match value {
        Some(v) => v != 0,
        None => false,
    }
}

/// Position of the first NUL byte of `raw`, or its length when there is none.
pub fn nul_position(raw: &Vec<u8>) -> (n: usize)
    ensures
        n == description_len(raw@),
{
    let mut i: usize = 0;
    while i < raw.len()
        invariant
            i <= raw@.len(),
            forall|j: int| 0 <= j < i ==> raw@[j] != 0,
        decreases raw@.len() - i,
    {
        if raw[i] == 0 {
            assert(is_first_nul(raw@, i as int));
            proof {
                let c = choose|k: int| is_first_nul(raw@, k);
                assert(is_first_nul(raw@, c));
                if c < i {
                    assert(raw@[c] != 0);
                } else if c > i {
                    assert(raw@[i as int] != 0);
                }
            }
            return i;
        }
        i = i + 1;
    }
    assert(!exists|k: int| is_first_nul(raw@, k));
    i
}

/// The name shown for adapter `index`; `description` is its raw driver
/// description when the property is supported and was read.
pub fn adapter_name(index: u32, description: Option<&Vec<u8>>) -> (name: String)
    ensures
        name@ == adapter_name_text(index, match description {
            Some(raw) => Some(raw@),
            None => None,
        }),
        description is Some && is_ascii_bytes(
            description->0@.subrange(0, description_len(description->0@)),
        ) ==> name@ == ascii_chars(description->0@.subrange(0, description_len(description->0@))),
{
    match description {
        Some(raw) => {
            let n: usize = nul_position(raw);
            let mut text: Vec<u8> = Vec::new();
            let mut i: usize = 0;
            while i < n
                invariant
                    i <= n,
                    n <= raw@.len(),
                    text@ == raw@.subrange(0, i as int),
                decreases n - i,
            {
                text.push(raw[i]);
                i = i + 1;
                assert(text@ =~= raw@.subrange(0, i as int));
            }
            utf8_lossy(&text)
        },
        None => {
            let mut name = String::from_str("GPU ");
            push_decimal(&mut name, index as u128);
            proof {
                reveal_strlit("GPU ");
            }
            assert(name@ =~= seq!['G', 'P', 'U', ' '] + decimal(index as nat));
            name
        },
    }
}

/// The memory line of a GPU card: "总量 t · 常驻 r · 提交 c" with the total,
/// resident and committed gigabytes when the total is known and positive and
/// the segment figures are known; "总量 t · 常驻 -- · 提交 --" with only the
/// total; else "N/A".
pub open spec fn memory_line_text(total: Option<u64>, figures: Option<(u64, u64)>) -> Seq<char> {
    if total is Some && total->0 > 0 {
        match figures {
            Some((resident, committed)) => "总量 "@ + gb_text_tenths(total->0 as nat) + " · 常驻 "@
                + gb_text_tenths(resident as nat) + " · 提交 "@ + gb_text_tenths(committed as nat),
            None => "总量 "@ + gb_text_tenths(total->0 as nat) + " · 常驻 -- · 提交 --"@,
        }
    } else {
        "N/A"@
    }
}

/// The memory line of a GPU card from the memory total (when readable) and
/// the resident and committed bytes (when the segment query succeeded).
pub fn memory_line(total: Option<u64>, figures: Option<(u64, u64)>) -> (line: String)
    ensures
        line@ == memory_line_text(total, figures),
{
    match total {
        Some(t) if t > 0 => {
            let mut line = String::from_str("总量 ");
            let tt = format_gb_tenths(t);
            line.append(tt.as_str());
            match figures {
                Some((resident, committed)) => {
                    line.append(" · 常驻 ");
                    let rt = format_gb_tenths(resident);
                    line.append(rt.as_str());
                    line.append(" · 提交 ");
                    let ct = format_gb_tenths(committed);
                    line.append(ct.as_str());
                },
                None => {
                    line.append(" · 常驻 -- · 提交 --");
                },
            }
            line
        },
        _ => String::from_str("N/A"),
    }
}

/// The memory texts of one GPU card.
pub struct GpuMemoryLines {
    /// Dedicated memory line.
    pub dedicated_line: String,
    /// Shared memory line.
    pub shared_line: String,
    /// Resident dedicated bytes and dedicated total from which the usage
    /// gauge is drawn; `None` when the gauge shows zero.
    pub usage_basis: Option<(u64, u64)>,
}

/// The dedicated and shared memory lines of a GPU card, from the dedicated
/// and shared totals (when readable) and the segment usage (when the query
/// succeeded).
pub fn gpu_memory_lines(dedicated_total: Option<u64>, shared_total: Option<u64>, seg: Option<
    SegmentUsage,
>) -> (lines: GpuMemoryLines)
    ensures
        lines.dedicated_line@ == memory_line_text(dedicated_total, match seg {
            Some(s) => Some((s.dedicated_resident, s.dedicated_committed)),
            None => None,
        }),
        lines.shared_line@ == memory_line_text(shared_total, match seg {
            Some(s) => Some((s.shared_resident, s.shared_committed)),
            None => None,
        }),
        lines.usage_basis == (if dedicated_total is Some && dedicated_total->0 > 0 && seg is Some {
            Some((seg->0.dedicated_resident, dedicated_total->0))
        } else {
            None
        }),
{
    let dedicated_figures = match seg {
        Some(s) => Some((s.dedicated_resident, s.dedicated_committed)),
        None => None,
    };
    let shared_figures = match seg {
        Some(s) => Some((s.shared_resident, s.shared_committed)),
        None => None,
    };
    let usage_basis = match (dedicated_total, seg) {
        (Some(t), Some(s)) if t > 0 => Some((s.dedicated_resident, t)),
        _ => None,
    };
    GpuMemoryLines {
        dedicated_line: memory_line(dedicated_total, dedicated_figures),
        shared_line: memory_line(shared_total, shared_figures),
        usage_basis,
    }
}


/// A card with a known positive total shows "总量 " and the total's
/// one-decimal gigabytes, then the resident and committed figures as
/// one-decimal gigabytes, or "--" for each when they are unknown.
pub proof fn lemma_memory_line_fields(t: u64, figures: Option<(u64, u64)>)
    requires
        t > 0,
    ensures
        memory_line_text(Some(t), figures) == "总量 "@ + gb_text_tenths(t as nat) + match figures {
            Some((r, c)) => " · 常驻 "@ + gb_text_tenths(r as nat) + " · 提交 "@ + gb_text_tenths(c as nat),
            None => " · 常驻 -- · 提交 --"@,
        },
{
    match figures {
        Some((r, c)) => {
            assert(memory_line_text(Some(t), figures) =~= "总量 "@ + gb_text_tenths(t as nat) + (" · 常驻 "@
                + gb_text_tenths(r as nat) + " · 提交 "@ + gb_text_tenths(c as nat)));
        },
        None => {},
    }
}

/// A card whose total is unknown or zero shows "N/A", whatever the figures.
pub proof fn lemma_memory_line_without_total(total: Option<u64>, figures: Option<(u64, u64)>)
    requires
        total is None || total == Some(0u64),
    ensures
        memory_line_text(total, figures) == "N/A"@,
{
}

/// The total in a GPU line is the total rounded to the nearest tenth of a
/// gigabyte: the shown tenths are within half a tenth of `10 * t / 2^30`
/// (for every total below 2^53 bytes, where `t as f64` is exact).
pub proof fn lemma_memory_line_total_is_nearest(t: u64)
    requires
        0 < t < 0x20_0000_0000_0000,
    ensures
        2 * gb_tenths(t as nat) * 0x4000_0000 <= 20 * t + 0x4000_0000,
        20 * t <= 2 * gb_tenths(t as nat) * 0x4000_0000 + 0x4000_0000,
{
    crate::format::lemma_tenths_nearest(t as nat);
}

proof fn lemma_nul_has_first(raw: Seq<u8>, j: int)
    requires
        0 <= j < raw.len(),
        raw[j] == 0,
    ensures
        exists|i: int| is_first_nul(raw, i),
    decreases j,
{
    if forall|m: int| 0 <= m < j ==> raw[m] != 0 {
        assert(is_first_nul(raw, j));
    } else {
        let m = choose|m: int| 0 <= m < j && raw[m] == 0;
        lemma_nul_has_first(raw, m);
    }
}

/// The shown text of a description is the bytes before the first NUL: none
/// of them is NUL, and the text ends at a NUL or at the end of the bytes.
pub proof fn lemma_description_len(raw: Seq<u8>)
    ensures
        0 <= description_len(raw) <= raw.len(),
        forall|j: int| 0 <= j < description_len(raw) ==> raw[j] != 0,
        description_len(raw) < raw.len() ==> raw[description_len(raw)] == 0,
{
    if exists|i: int| is_first_nul(raw, i) {
        let c = choose|i: int| is_first_nul(raw, i);
        assert(is_first_nul(raw, c));
    } else {
        assert forall|j: int| 0 <= j < raw.len() implies raw[j] != 0 by {
            if raw[j] == 0 {
                lemma_nul_has_first(raw, j);
            }
        }
    }
}

/// An adapter's name: with a description, the lossy decoding of its bytes
/// before the first NUL, which is those bytes as characters when they are
/// ASCII; without one, "GPU " and the adapter's index in decimal.
pub proof fn lemma_adapter_name_text(index: u32, description: Option<Seq<u8>>)
    ensures
        description is None ==> adapter_name_text(index, description) == "GPU "@ + decimal(index as nat),
        description matches Some(raw) ==> adapter_name_text(index, description) == utf8_lossy_text(
            raw.subrange(0, description_len(raw)),
        ),
{
    reveal_strlit("GPU ");
    if description is None {
        assert(adapter_name_text(index, description) =~= "GPU "@ + decimal(index as nat));
    }
}

/// An adapter is shown exactly when its hardware property is supported, was
/// read, and is non-zero.
pub proof fn lemma_is_hardware(supported: bool, value: Option<u8>)
    ensures
        is_hardware(supported, value) <==> (supported && exists|v: u8| value == Some(v) && v != 0),
{
    if supported && value is Some && value->0 != 0 {
        assert(value == Some(value->0));
    }
}


/// ASCII bytes read as characters one per byte, each with the byte's code.
pub proof fn lemma_ascii_chars(bytes: Seq<u8>)
    ensures
        ascii_chars(bytes).len() == bytes.len(),
        forall|i: int| 0 <= i < bytes.len() ==> #[trigger] ascii_chars(bytes)[i] as int == bytes[i] as int,
        is_ascii_bytes(bytes) <==> forall|i: int| 0 <= i < bytes.len() ==> #[trigger] bytes[i] <= 127,
{
}

} // verus!
