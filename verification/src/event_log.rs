//! Reading the event log back.

use serde_json::Value;
use vstd::prelude::*;

use crate::json;
use crate::json::{
    all_plain, json, member_map, object_text, read_text, written, Json, Member,
};
use crate::text;

verus! {

/// What the values hold.
pub open spec fn contents(values: Seq<Value>) -> Seq<Json> {
    values.map_values(|v: Value| json(v))
}

/// What the lines of a log hold. Blank lines and lines that are no JSON are
/// passed over.
pub open spec fn logged(lines: Seq<Seq<char>>) -> Seq<Json>
    decreases lines.len(),
{
    if lines.len() == 0 {
        Seq::empty()
    } else {
        let earlier = logged(lines.drop_last());
        if text::trimmed(lines.last()).len() == 0 {
            earlier
        } else {
            match read_text(lines.last()) {
                Some(j) => earlier.push(j),
                None => earlier,
            }
        }
    }
}

/// Every event is an object of plain members.
pub open spec fn all_flat(events: Seq<Json>) -> bool {
    forall|i: int| 0 <= i < events.len() ==> (#[trigger] events[i]).is_flat()
}

/// The lines of a log of objects with these members.
pub open spec fn log_lines(log: Seq<Seq<Member>>) -> Seq<Seq<char>> {
    log.map_values(|members: Seq<Member>| object_text(members))
}

/// Each object of the log has plain members and takes exactly one line.
pub open spec fn is_log(log: Seq<Seq<Member>>) -> bool {
    forall|i: int|
        0 <= i < log.len() ==> all_plain(#[trigger] log[i]) && text::no_control(
            object_text(log[i]),
        )
}

/// The objects of a log, by their members.
pub open spec fn log_objects(log: Seq<Seq<Member>>) -> Seq<Json> {
    log.map_values(|members: Seq<Member>| Json::Object(member_map(members)))
}

/// The lines of a log of these values.
pub open spec fn value_lines(values: Seq<Json>) -> Seq<Seq<char>> {
    values.map_values(|j: Json| written(j))
}

/// The text of a log of these values: their lines with a line break between
/// neighbours and one at the end.
pub open spec fn log_text(values: Seq<Json>) -> Seq<char> {
    text::joined(value_lines(values), "\n"@) + "\n"@
}

/// Each value is an object of plain members and takes exactly one line, which
/// is not blank.
pub open spec fn is_value_log(values: Seq<Json>) -> bool {
    forall|i: int|
        0 <= i < values.len() ==> {
            &&& (#[trigger] values[i]).is_flat()
            &&& is_line(written(values[i]))
        }
}

/// A text that takes exactly one line and does not begin with white space.
pub open spec fn is_line(line: Seq<char>) -> bool {
    text::no_control(line) && line.len() > 0 && !text::is_white(line[0])
}

/// What is written in this line is what is read in it.
spec fn faithful(line: Seq<char>) -> bool {
    &&& forall|members: Seq<Member>|
        all_plain(members) && line == #[trigger] object_text(members) ==> read_text(line) == Some(
            Json::Object(member_map(members)),
        )
    &&& forall|j: Json|
        j.is_flat() && line == #[trigger] written(j) ==> read_text(line) == Some(j)
}

/// An object does not begin with white space.
proof fn lemma_object_not_blank(members: Seq<Member>)
    ensures
        object_text(members).len() > 0 && !text::is_white(object_text(members)[0]),
{
    reveal_strlit("{");
    assert(object_text(members)[0] == '{');
}

/// Lines that are not blank and read as these values are a log of them.
proof fn lemma_logged(lines: Seq<Seq<char>>, values: Seq<Json>)
    requires
        lines.len() == values.len(),
        forall|i: int|
            0 <= i < lines.len() ==> text::trimmed(#[trigger] lines[i]).len() > 0 && read_text(
                lines[i],
            ) == Some(values[i]),
    ensures
        logged(lines) == values,
    decreases lines.len(),
{
    if lines.len() > 0 {
        lemma_logged(lines.drop_last(), values.drop_last());
        let last = lines[lines.len() - 1];
        assert(values.drop_last().push(values.last()) =~= values);
    } else {
        assert(values =~= Seq::empty());
    }
}

/// Joined lines with a line break at the end are a block of them, unless there
/// are none.
proof fn lemma_joined_block(lines: Seq<Seq<char>>)
    requires
        lines.len() > 0,
    ensures
        text::joined(lines, "\n"@) + "\n"@ == text::line_block(lines),
    decreases lines.len(),
{
    let fewer = lines.drop_last();
    assert(fewer.push(lines.last()) =~= lines);
    text::lemma_line_block_push(fewer, lines.last());
    if lines.len() == 1 {
        assert(text::line_block(fewer) =~= Seq::empty());
        assert(text::joined(lines, "\n"@) + "\n"@ =~= text::line_block(lines));
    } else {
        lemma_joined_block(fewer);
        assert(text::joined(lines, "\n"@) + "\n"@ =~= text::line_block(lines));
    }
}

/// The only line of the empty log is blank.
proof fn lemma_empty_log()
    ensures
        logged(text::lines_of("\n"@)) == Seq::<Json>::empty(),
{
    reveal_strlit("\n");
    let s = "\n"@;
    text::lemma_break_at(s, 0);
    assert(s.skip(1) =~= Seq::<char>::empty());
    assert(s.take(0) =~= Seq::<char>::empty());
    let lines = text::lines_of(s);
    assert(text::lines_of(s.skip(1)) =~= Seq::<Seq<char>>::empty());
    assert(lines =~= seq![Seq::<char>::empty()]);
    assert(lines.drop_last() =~= Seq::<Seq<char>>::empty());
    let blank = lines.last();
    assert(text::trim_start(blank) == blank);
    assert(text::trim_end(blank) == blank);
    assert(logged(lines.drop_last()) =~= Seq::<Json>::empty());
}

/// Reads a JSONL events file into raw JSON values, skipping blank lines and
/// lines that are no JSON. A log is read back as it was written, whether event
/// by event or as a whole.
pub fn read_events_jsonl(content: &str) -> (events: Vec<Value>)
    ensures
        contents(events@) == logged(text::lines_of(content@)),
        forall|log: Seq<Seq<Member>>|
            is_log(log) && content@ == #[trigger] text::line_block(log_lines(log)) ==> contents(
                events@,
            ) == log_objects(log),
        forall|values: Seq<Json>|
            is_value_log(values) && content@ == #[trigger] log_text(values) ==> contents(events@)
                == values,
{
    let lines = text::lines(content);
    let ghost all = text::views(lines@);
    let mut events: Vec<Value> = Vec::new();
    assert(contents(events@) =~= logged(all.take(0)));
    for i in 0..lines.len()
        invariant
            all == text::views(lines@),
            contents(events@) == logged(all.take(i as int)),
            forall|j: int|
                0 <= j < i && text::trimmed(all[j]).len() > 0 ==> faithful(#[trigger] all[j]),
    {
        let line = lines[i].as_str();
        assert(all.take(i + 1).drop_last() =~= all.take(i as int));
        assert(all.take(i + 1).last() == line@);
        let ghost before = events@;
        if !text::trim(line).as_str().is_empty() {
            match json::parse(line) {
                Some(value) => {
                    events.push(value);
                    assert(contents(events@) =~= contents(before).push(json(value)));
                },
                None => {},
            }
            assert(faithful(all[i as int]));
        }
    }
    assert(all.take(lines@.len() as int) =~= all);
    proof {
        assert forall|log: Seq<Seq<Member>>|
            is_log(log) && content@ == #[trigger] text::line_block(log_lines(log)) implies contents(
            events@,
        ) == log_objects(log) by {
            let texts = log_lines(log);
            assert forall|i: int| 0 <= i < texts.len() implies text::no_control(
                #[trigger] texts[i],
            ) by {
                assert(all_plain(log[i]));
            }
            text::lemma_lines_of_block(texts);
            assert forall|i: int| 0 <= i < texts.len() implies text::trimmed(
                #[trigger] texts[i],
            ).len() > 0 && read_text(texts[i]) == Some(log_objects(log)[i]) by {
                lemma_object_not_blank(log[i]);
                text::lemma_trimmed_keeps(texts[i], 0);
                assert(all_plain(log[i]));
                assert(faithful(all[i]));
            }
            lemma_logged(texts, log_objects(log));
        }
        assert forall|values: Seq<Json>|
            is_value_log(values) && content@ == #[trigger] log_text(values) implies contents(
            events@,
        ) == values by {
            let texts = value_lines(values);
            if values.len() == 0 {
                assert(text::joined(texts, "\n"@) + "\n"@ =~= "\n"@);
                lemma_empty_log();
                assert(values =~= Seq::empty());
            } else {
                lemma_joined_block(texts);
                assert forall|i: int| 0 <= i < texts.len() implies text::no_control(
                    #[trigger] texts[i],
                ) by {
                    assert(values[i].is_flat());
                }
                text::lemma_lines_of_block(texts);
                assert forall|i: int| 0 <= i < texts.len() implies text::trimmed(
                    #[trigger] texts[i],
                ).len() > 0 && read_text(texts[i]) == Some(values[i]) by {
                    assert(values[i].is_flat());
                    text::lemma_trimmed_keeps(texts[i], 0);
                    assert(faithful(all[i]));
                }
                lemma_logged(texts, values);
            }
        }
    }
    events
}

/// Writes a log as a whole: one value per line, each line ended by a line
/// break.
pub fn write_events_jsonl(events: &Vec<Value>) -> (content: String)
    ensures
        content@ == log_text(contents(events@)),
        forall|i: int| 0 <= i < events@.len() ==> is_line(written(json(#[trigger] events@[i]))),
{
    let mut lines: Vec<String> = Vec::new();
    let ghost all = value_lines(contents(events@));
    for i in 0..events.len()
        invariant
            all == value_lines(contents(events@)),
            text::views(lines@) == all.take(i as int),
            forall|j: int| 0 <= j < i ==> is_line(written(json(#[trigger] events@[j]))),
    {
        let line = json::to_text(&events[i]);
        assert(contents(events@)[i as int] == json(events@[i as int]));
        assert(text::views(lines@.push(line)) =~= text::views(lines@).push(line@));
        lines.push(line);
        assert(text::views(lines@) =~= all.take(i + 1));
    }
    assert(all.take(events@.len() as int) =~= all);
    let mut content = text::join(&lines, "\n");
    content.append("\n");
    content
}

/// Every line that says something and is JSON is an event of the log, in order,
/// and no other line is: what two runs of lines hold is what each holds.
pub proof fn law_log_has_every_line(
    some: Seq<Seq<char>>,
    more: Seq<Seq<char>>,
    line: Seq<char>,
)
    ensures
        logged(Seq::empty()) == Seq::<Json>::empty(),
        text::has_letter(line) ==> (read_text(line) matches Some(j) ==> logged(seq![line]) == seq![
            j,
        ]),
        !text::has_letter(line) || read_text(line) is None ==> logged(seq![line]) == Seq::<
            Json,
        >::empty(),
        logged(some + more) == logged(some) + logged(more),
    decreases more.len(),
{
    text::law_trimming_cuts_white_space(line);
    assert(seq![line].drop_last() =~= Seq::empty());
    assert(logged(seq![line].drop_last()) =~= Seq::empty());
    if more.len() == 0 {
        assert(some + more =~= some);
        assert(logged(some + more) =~= logged(some) + logged(more));
    } else {
        law_log_has_every_line(some, more.drop_last(), line);
        assert((some + more).drop_last() =~= some + more.drop_last());
        assert(logged(some + more) =~= logged(some) + logged(more));
    }
}

/// A log of values has one line for each of them, in order, each ended by a line
/// break; without values it is one line break.
pub proof fn law_written_log_has_every_value(values: Seq<Json>, value: Json)
    ensures
        log_text(Seq::empty()) == "\n"@,
        log_text(seq![value]) == written(value) + "\n"@,
        values.len() > 0 ==> log_text(values.push(value)) == log_text(values) + written(value)
            + "\n"@,
{
    assert(value_lines(Seq::empty()) =~= Seq::<Seq<char>>::empty());
    assert(log_text(Seq::empty()) =~= "\n"@);
    assert(value_lines(seq![value]) =~= seq![written(value)]);
    if values.len() > 0 {
        let lines = value_lines(values);
        assert(value_lines(values.push(value)) =~= lines.push(written(value)));
        assert(lines.push(written(value)).drop_last() =~= lines);
        assert(log_text(values.push(value)) =~= log_text(values) + written(value) + "\n"@);
    }
}

/// What is known of values is what they hold, value by value.
pub proof fn law_contents_are_the_values(values: Seq<Value>, i: int)
    ensures
        contents(values).len() == values.len(),
        0 <= i < values.len() ==> contents(values)[i] == json(values[i]),
{
}

} // verus!
