use vstd::prelude::*;

use crate::text::chars_of;

verus! {

/// Style of a summary tile whose figure is emphasised and negative.
pub open spec fn loss_tile() -> Seq<char> {
    "rounded-xl bg-red-500/15 p-3 text-red-300"@
}

/// Style of a summary tile whose figure is emphasised and not negative.
pub open spec fn gain_tile() -> Seq<char> {
    "rounded-xl bg-emerald-500/15 p-3 text-emerald-300"@
}

/// Style of a summary tile whose figure is not emphasised.
pub open spec fn plain_tile() -> Seq<char> {
    "rounded-xl bg-slate-800/80 p-3 text-slate-100"@
}

/// The style of a summary tile showing the formatted figure `value`: red when
/// emphasised and the figure starts with a minus sign, green when emphasised
/// otherwise, neutral when not emphasised.
pub fn stat_item_class(highlight: bool, value: &str) -> (c: &'static str)
    ensures
        c@ == (if !highlight {
            plain_tile()
        } else if value@.len() > 0 && value@[0] == '-' {
            loss_tile()
        } else {
            gain_tile()
        }),
{
    if highlight {
        let v = chars_of(value);
        if v.len() > 0 && v[0] == '-' {
            "rounded-xl bg-red-500/15 p-3 text-red-300"
        } else {
            "rounded-xl bg-emerald-500/15 p-3 text-emerald-300"
        }
    } else {
        "rounded-xl bg-slate-800/80 p-3 text-slate-100"
    }
}

/// Style of a table cell showing a profit (or nothing lost).
pub open spec fn gain_cell() -> Seq<char> {
    "px-4 py-3 text-right text-emerald-300"@
}

/// Style of a table cell showing a loss.
pub open spec fn loss_cell() -> Seq<char> {
    "px-4 py-3 text-right text-red-300"@
}

/// The style of a profit-and-loss cell, by whether the figure is at least zero.
pub fn pnl_class(non_negative: bool) -> (c: &'static str)
    ensures
        c@ == (if non_negative { gain_cell() } else { loss_cell() }),
{
    if non_negative {
        "px-4 py-3 text-right text-emerald-300"
    } else {
        "px-4 py-3 text-right text-red-300"
    }
}

/// The styles: red for an emphasised loss, green for an emphasised figure
/// that is not a loss, slate for a plain one; green and red profit cells.
pub proof fn lemma_style_texts()
    ensures
        loss_tile() == "rounded-xl bg-red-500/15 p-3 text-red-300"@,
        gain_tile() == "rounded-xl bg-emerald-500/15 p-3 text-emerald-300"@,
        plain_tile() == "rounded-xl bg-slate-800/80 p-3 text-slate-100"@,
        gain_cell() == "px-4 py-3 text-right text-emerald-300"@,
        loss_cell() == "px-4 py-3 text-right text-red-300"@,
{
}

} // verus!
