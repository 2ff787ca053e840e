use vstd::prelude::*;

use crate::text::{concat, decimal, push_decimal};

verus! {

/// What `chrono` writes for the UNIX time `secs` with `%Y-%m-%d %H:%M:%S`
/// (`NaiveDateTime::from_timestamp_opt(secs, 0)` and `format`); `None` when the
/// time is out of chrono's range.
pub uninterp spec fn spec_format_timestamp(secs: i64) -> Option<Seq<char>>;

/// `chrono::NaiveDateTime::from_timestamp_opt(secs, 0)` formatted as
/// `%Y-%m-%d %H:%M:%S` (UTC, no time zone). The calendar arithmetic is named,
/// not written out; the result is a function of `secs`.
#[verifier::external_body]
#[allow(deprecated)]
fn format_timestamp(secs: i64) -> (r: Option<String>)
    ensures
        r matches Some(s) ==> spec_format_timestamp(secs) == Some(s@),
        r is None ==> spec_format_timestamp(secs) is None,
{
    match chrono::NaiveDateTime::from_timestamp_opt(secs, 0) {
        Some(time) => Some(time.format("%Y-%m-%d %H:%M:%S").to_string()),
        None => None,
    }
}

/// The text of the last time a wallpaper was played: its date and time, or
/// `无效时间` ("invalid time") when the time cannot be written.
pub open spec fn played_time_text(secs: i64) -> Seq<char> {
    match spec_format_timestamp(secs) {
        Some(s) => s,
        None => "无效时间"@,
    }
}

/// A row of the play statistics: wallpaper id, wallpaper name, complete plays,
/// interrupted plays, total play time in seconds, and when it was last played.
pub type StatsRow = (String, String, u32, u32, u64, i64);

/// The CSV line of a row of the statistics, with its line break.
pub open spec fn csv_line(row: StatsRow) -> Seq<char> {
    row.0@ + ","@ + row.1@ + ","@ + decimal(row.2 as nat) + ","@ + decimal(row.3 as nat) + ","@ + decimal(
        row.4 as nat,
    ) + ","@ + played_time_text(row.5) + "\n"@
}

/// The header line of the statistics file.
pub open spec fn csv_header() -> Seq<char> {
    "壁纸ID,壁纸名称,完整播放次数,中断次数,总播放时长(秒),最后播放时间"@ + "\n"@
}

/// The lines of the rows, in order.
pub open spec fn csv_lines(rows: Seq<StatsRow>) -> Seq<char>
    decreases rows.len(),
{
    if rows.len() == 0 {
        Seq::empty()
    } else {
        csv_lines(rows.drop_last()) + csv_line(rows.last())
    }
}

fn append_line(out: &mut String, row: &StatsRow)
    ensures
        final(out)@ == old(out)@ + csv_line(*row),
{
    out.append(row.0.as_str());
    out.append(",");
    out.append(row.1.as_str());
    out.append(",");
    push_decimal(out, row.2 as u64);
    out.append(",");
    push_decimal(out, row.3 as u64);
    out.append(",");
    push_decimal(out, row.4);
    out.append(",");
    match format_timestamp(row.5) {
        Some(t) => out.append(t.as_str()),
        None => out.append("无效时间"),
    }
    out.append("\n");
    assert(out@ =~= old(out)@ + csv_line(*row));
}

/// The statistics as a CSV file: the header line, then a line per row.
pub fn stats_csv(rows: &Vec<StatsRow>) -> (r: String)
    ensures
        r@ == csv_header() + csv_lines(rows@),
{
    let mut out = concat("壁纸ID,壁纸名称,完整播放次数,中断次数,总播放时长(秒),最后播放时间", "\n");
    let mut i: usize = 0;
    assert(rows@.subrange(0, 0) =~= Seq::<StatsRow>::empty());
    assert(out@ + Seq::<char>::empty() =~= out@);
    while i < rows.len()
        invariant
            i <= rows.len(),
            out@ == csv_header() + csv_lines(rows@.subrange(0, i as int)),
        decreases rows.len() - i,
    {
        append_line(&mut out, &rows[i]);
        proof {
            let s = rows@.subrange(0, i + 1);
            assert(s.drop_last() =~= rows@.subrange(0, i as int));
            assert(s.last() == rows@[i as int]);
        }
        i = i + 1;
    }
    assert(rows@.subrange(0, rows.len() as int) =~= rows@);
    out
}

} // verus!
