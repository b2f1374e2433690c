//! Session descriptions: candidates, mDNS addresses and refused streams.

use vstd::prelude::*;
use crate::text::{
    begins_with, chars_of, contains_text, ends_with, is_white, is_word, join_texts, joined_by,
    law_joined_lines_are_found, law_trimming_takes_white_space, law_white_space_parts_words,
    lemma_words_are_words, lemma_words_of_join, lines, lines_of, occurs_in, opt_text, part,
    push_text, stands_at, strip_prefix, text_of, texts, trim_chars, trimmed, words, words_of,
};

verus! {

/// A line of a description that offers a candidate.
pub open spec fn is_candidate(line: Seq<char>) -> bool {
    begins_with(trimmed(line), "a=candidate:"@)
}

/// A description with at least one candidate.
pub open spec fn has_candidate(sdp: Seq<char>) -> bool {
    exists|i: int| 0 <= i < lines(sdp).len() && is_candidate(#[trigger] lines(sdp)[i])
}

/// Refuses a description without candidates: no connection could come of it. `what`
/// names the description in the message.
pub fn require_candidates(sdp: &str, what: &str) -> (result: Result<(), String>)
    ensures
        result is Ok <==> has_candidate(sdp@),
        result matches Err(message) ==> message@ == what@ + " gathered no ICE candidates"@,
{
    let list = lines_of(sdp);
    let prefix = chars_of("a=candidate:");
    let ghost all = lines(sdp@);
    let mut i: usize = 0;
    while i < list.len()
        invariant
            i <= list@.len(),
            all == lines(sdp@),
            texts(list@) == all,
            prefix@ == "a=candidate:"@,
            forall|j: int| 0 <= j < i ==> !is_candidate(#[trigger] all[j]),
        decreases list@.len() - i,
    {
        let line = trim_chars(&chars_of(list[i].as_str()));
        assert(texts(list@)[i as int] == list@[i as int]@);
        if stands_at(&line, &prefix, 0) {
            assert(is_candidate(all[i as int]));
            return Ok(());
        }
        i += 1;
    }
    assert(all.len() == list@.len());
    let mut message = what.to_owned();
    push_text(&mut message, " gathered no ICE candidates");
    Err(message)
}

/// A line that opens a video section whose port is 0: the stream was refused.
pub open spec fn refuses_video(line: Seq<char>) -> bool {
    let core = trimmed(line);
    &&& begins_with(core, "m=video "@)
    &&& words(core).len() > 1
    &&& words(core)[1] == "0"@
}

/// The first line of an answer that refuses video, trimmed.
pub open spec fn first_refusal(all: Seq<Seq<char>>) -> Option<Seq<char>>
    decreases all.len(),
{
    if all.len() == 0 {
        None
    } else if refuses_video(all[0]) {
        Some(trimmed(all[0]))
    } else {
        first_refusal(all.skip(1))
    }
}

proof fn lemma_first_refusal(all: Seq<Seq<char>>, i: int)
    requires
        0 <= i <= all.len(),
        forall|j: int| 0 <= j < i ==> !refuses_video(#[trigger] all[j]),
    ensures
        first_refusal(all) == first_refusal(all.skip(i)),
    decreases i,
{
    if i == 0 {
        assert(all.skip(0) =~= all);
    } else {
        assert(!refuses_video(all[0]));
        assert forall|j: int| 0 <= j < i - 1 implies !refuses_video(#[trigger] all.skip(1)[j]) by {
            assert(all.skip(1)[j] == all[j + 1]);
        }
        lemma_first_refusal(all.skip(1), i - 1);
        assert(all.skip(1).skip(i - 1) =~= all.skip(i));
    }
}

/// The first line of an answer that refuses video.
pub fn rejected_video_section(sdp: &str) -> (line: Option<String>)
    ensures
        opt_text(line) == first_refusal(lines(sdp@)),
        line is None <==> forall|i: int|
            0 <= i < lines(sdp@).len() ==> !refuses_video(#[trigger] lines(sdp@)[i]),
        line matches Some(text) ==> exists|i: int|
            {
                &&& 0 <= i < lines(sdp@).len()
                &&& refuses_video(#[trigger] lines(sdp@)[i])
                &&& text@ == trimmed(lines(sdp@)[i])
                &&& forall|j: int| 0 <= j < i ==> !refuses_video(#[trigger] lines(sdp@)[j])
            },
{
    let list = lines_of(sdp);
    let prefix = chars_of("m=video ");
    let zero = chars_of("0");
    let ghost all = lines(sdp@);
    let mut i: usize = 0;
    while i < list.len()
        invariant
            i <= list@.len(),
            all == lines(sdp@),
            texts(list@) == all,
            prefix@ == "m=video "@,
            zero@ == "0"@,
            forall|j: int| 0 <= j < i ==> !refuses_video(#[trigger] all[j]),
        decreases list@.len() - i,
    {
        let line = trim_chars(&chars_of(list[i].as_str()));
        assert(texts(list@)[i as int] == list@[i as int]@);
        if stands_at(&line, &prefix, 0) {
            let pieces = words_of(&line);
            if pieces.len() > 1 {
                assert(texts(pieces@)[1] == pieces@[1]@);
                if crate::text::same_text(pieces[1].as_str(), "0") {
                    assert(refuses_video(all[i as int]));
                    proof {
                        lemma_first_refusal(all, i as int);
                    }
                    return Some(text_of(&line));
                }
            }
        }
        assert(!refuses_video(all[i as int]));
        i += 1;
    }
    assert(all.len() == list@.len());
    proof {
        lemma_first_refusal(all, i as int);
    }
    None
}

/// A line without the carriage returns at its end.
pub open spec fn without_returns(line: Seq<char>) -> Seq<char>
    decreases line.len(),
{
    if line.len() > 0 && line.last() == '\r' {
        without_returns(line.drop_last())
    } else {
        line
    }
}

fn trim_returns(chars: &Vec<char>) -> (line: Vec<char>)
    ensures
        line@ == without_returns(chars@),
{
    let mut end: usize = chars.len();
    assert(chars@.take(end as int) =~= chars@);
    while end > 0 && chars[end - 1] == '\r'
        invariant
            end <= chars@.len(),
            without_returns(chars@.take(end as int)) == without_returns(chars@),
        decreases end,
    {
        assert(chars@.take(end as int).last() == '\r');
        assert(chars@.take(end as int).drop_last() =~= chars@.take(end as int - 1));
        end -= 1;
    }
    let line = part(chars, 0, end);
    assert(line@ =~= chars@.take(end as int));
    assert(without_returns(line@) == line@) by {
        if end > 0 {
            assert(line@.last() == chars@[end - 1]);
        }
    }
    line
}

/// A candidate whose address is an mDNS name: of the words behind the prefix the fifth
/// ends with `.local`.
pub open spec fn hides_address(line: Seq<char>) -> bool {
    let prefix = "a=candidate:"@;
    let fields = words(line.skip(prefix.len() as int));
    &&& begins_with(line, prefix)
    &&& fields.len() >= 5
    &&& ends_with(fields[4], ".local"@)
}

/// A line with its mDNS address replaced.
pub open spec fn rewritten_line(line: Seq<char>, ip: Seq<char>) -> Seq<char> {
    if hides_address(line) {
        let prefix = "a=candidate:"@;
        prefix + joined_by(words(line.skip(prefix.len() as int)).update(4, ip), " "@)
    } else {
        line
    }
}

/// Replaces the mDNS address of a candidate line.
pub fn rewrite_mdns_candidate_line(line: &str, ip: &str) -> (text: String)
    ensures
        text@ == rewritten_line(line@, ip@),
{
    let prefix = chars_of("a=candidate:");
    let suffix = chars_of(".local");
    match strip_prefix(&chars_of(line), &prefix) {
        None => line.to_owned(),
        Some(rest) => {
            let mut fields = words_of(&rest);
            let ghost before = fields@;
            if fields.len() >= 5 {
                let address = chars_of(fields[4].as_str());
                assert(texts(fields@)[4] == address@);
                if address.len() >= suffix.len() && stands_at(
                    &address,
                    &suffix,
                    address.len() - suffix.len(),
                ) {
                    fields.set(4, ip.to_owned());
                    assert(texts(fields@) =~= texts(before).update(4, ip@));
                    let mut text = "a=candidate:".to_owned();
                    push_text(&mut text, join_texts(&fields, " ").as_str());
                    return text;
                }
            }
            line.to_owned()
        },
    }
}

/// The line end that a description uses.
pub open spec fn line_end(sdp: Seq<char>) -> Seq<char> {
    if occurs_in(sdp, seq!['\r', '\n']) {
        seq!['\r', '\n']
    } else {
        seq!['\n']
    }
}

/// The lines of a description with their mDNS addresses replaced.
pub open spec fn rewritten_lines(sdp: Seq<char>, ip: Seq<char>) -> Seq<Seq<char>> {
    Seq::new(lines(sdp).len(), |i: int| rewritten_line(without_returns(lines(sdp)[i]), ip))
}

/// A description whose last character is a line feed.
pub open spec fn is_terminated(sdp: Seq<char>) -> bool {
    sdp.len() > 0 && sdp.last() == '\n'
}

/// A description with its mDNS addresses replaced: line by line, with one kind of line
/// end, and terminated where it was before.
pub open spec fn rewritten(sdp: Seq<char>, ip: Seq<char>) -> Seq<char> {
    let all = rewritten_lines(sdp, ip);
    if is_terminated(sdp) {
        joined_by(all, line_end(sdp)) + line_end(sdp)
    } else if all.len() > 0 && all.last().len() == 0 {
        joined_by(all.drop_last(), line_end(sdp))
    } else {
        joined_by(all, line_end(sdp))
    }
}

/// Browsers hide the addresses of their candidates behind mDNS names. Puts a reachable
/// address in their place.
pub fn rewrite_mdns_candidate_addresses(sdp: &str, ip: &str) -> (text: String)
    ensures
        text@ == rewritten(sdp@, ip@),
{
    let chars = chars_of(sdp);
    let mut pair: Vec<char> = Vec::new();
    pair.push('\r');
    pair.push('\n');
    assert(pair@ =~= seq!['\r', '\n']);
    let newline = if contains_text(&chars, &pair) {
        text_of(&pair)
    } else {
        let mut feed = String::new();
        feed.push('\n');
        assert(feed@ =~= seq!['\n']);
        feed
    };
    assert(newline@ == line_end(sdp@));
    let terminated = chars.len() > 0 && chars[chars.len() - 1] == '\n';
    let raw = lines_of(sdp);
    let ghost all = rewritten_lines(sdp@, ip@);
    let mut list: Vec<String> = Vec::new();
    let mut i: usize = 0;
    while i < raw.len()
        invariant
            i <= raw@.len(),
            texts(raw@) == lines(sdp@),
            all == rewritten_lines(sdp@, ip@),
            texts(list@) == all.take(i as int),
        decreases raw@.len() - i,
    {
        let ghost before = list@;
        let line = text_of(&trim_returns(&chars_of(raw[i].as_str())));
        assert(texts(raw@)[i as int] == raw@[i as int]@);
        list.push(rewrite_mdns_candidate_line(line.as_str(), ip));
        i += 1;
        assert(texts(list@) =~= texts(before).push(all[i - 1]));
        assert(all.take(i as int) =~= all.take(i - 1).push(all[i - 1]));
    }
    assert(all.len() == raw@.len());
    assert(all.take(i as int) =~= all);
    assert(texts(list@) == all);
    let count: usize = list.len();
    assert(count == all.len());
    if !terminated && count > 0 {
        assert(texts(list@).last() == list@.last()@);
        if chars_of(list[count - 1].as_str()).len() == 0 {
            let _last = list.pop();
            assert(texts(list@) =~= all.drop_last());
        }
    }
    let mut text = join_texts(&list, newline.as_str());
    if terminated {
        push_text(&mut text, newline.as_str());
    }
    text
}

/// Lines that hide no address come back as they are.
pub proof fn law_other_lines_are_kept(line: Seq<char>, ip: Seq<char>)
    requires
        !hides_address(line),
    ensures
        rewritten_line(line, ip) == line,
{
}

/// Rewriting does not change the number of lines, and a line that offered no mDNS name
/// keeps its text.
pub proof fn law_rewriting_is_per_line(sdp: Seq<char>, ip: Seq<char>, i: int)
    requires
        0 <= i < lines(sdp).len(),
    ensures
        rewritten_lines(sdp, ip).len() == lines(sdp).len(),
        !hides_address(without_returns(lines(sdp)[i])) ==> rewritten_lines(sdp, ip)[i]
            == without_returns(lines(sdp)[i]),
{
}

/// A rewritten line offers the given address: it hides none any more.
pub proof fn law_rewritten_line_hides_nothing(line: Seq<char>, ip: Seq<char>)
    requires
        is_word(ip),
        !ends_with(ip, ".local"@),
    ensures
        !hides_address(rewritten_line(line, ip)),
{
    if hides_address(line) {
        let prefix = "a=candidate:"@;
        let fields = words(line.skip(prefix.len() as int));
        let list = fields.update(4, ip);
        let text = rewritten_line(line, ip);
        assert forall|k: int| 0 <= k < list.len() implies is_word(#[trigger] list[k]) by {
            if k != 4 {
                lemma_words_are_words(line.skip(prefix.len() as int), k);
            }
        }
        lemma_words_of_join(list);
        assert(text.skip(prefix.len() as int) =~= joined_by(list, " "@));
        assert(list[4] == ip);
    }
}

proof fn lemma_trimmed_begins_with(line: Seq<char>, prefix: Seq<char>, k: int)
    requires
        line.len() > 0,
        !is_white(line[0]),
        0 <= k,
        prefix.len() <= k + 1,
        k < line.len(),
        !is_white(line[k]),
    ensures
        begins_with(trimmed(line), prefix) == begins_with(line, prefix),
        trimmed(line).len() > k,
{
    let (from, to) = law_trimming_takes_white_space(line);
    assert(from == 0) by {
        if from > 0 {
            assert(is_white(line[0]));
        }
    }
    assert(to > k) by {
        if to <= k {
            assert(is_white(line[k]));
        }
    }
    assert(trimmed(line).subrange(0, prefix.len() as int) =~= line.subrange(
        0,
        prefix.len() as int,
    ));
}

/// A line offers a candidate exactly where it opens with `a=candidate:`, and a description
/// does where one of its lines does: lines that are added take no candidate away.
pub proof fn law_candidates_are_named(rest: Seq<char>, line: Seq<char>)
    requires
        line.len() >= 12,
        !is_white(line[0]),
        !is_white(line[11]),
    ensures
        is_candidate("a=candidate:"@ + rest),
        line.take(12) != "a=candidate:"@ ==> !is_candidate(line),
        line.take(12) == "a=candidate:"@ ==> is_candidate(line),
{
    reveal_strlit("a=candidate:");
    let prefix = "a=candidate:"@;
    let made = prefix + rest;
    assert(made[0] == 'a' && made[11] == ':');
    lemma_trimmed_begins_with(made, prefix, 11);
    assert(made.subrange(0, 12) =~= prefix);
    lemma_trimmed_begins_with(line, prefix, 11);
    assert(line.subrange(0, 12) =~= line.take(12));
}

/// A video section is refused exactly by the port 0, whatever follows the port.
pub proof fn law_port_zero_refuses(port: Seq<char>, rest: Seq<char>)
    requires
        is_word(port),
    ensures
        refuses_video("m=video "@ + port + " "@ + rest) <==> port == "0"@,
        !refuses_video("m=audio "@ + port + " "@ + rest),
{
    reveal_strlit("m=video ");
    reveal_strlit("m=audio ");
    reveal_strlit("m=video");
    reveal_strlit(" ");
    let line = "m=video "@ + port + " "@ + rest;
    assert(!is_white(port[0]));
    assert(line[8] == port[0]);
    assert(line[0] == 'm');
    lemma_trimmed_begins_with(line, "m=video "@, 8);
    assert(line.subrange(0, 8) =~= "m=video "@);
    let core = trimmed(line);
    let (from, to) = law_trimming_takes_white_space(line);
    assert(from == 0) by {
        if from > 0 {
            assert(is_white(line[0]));
        }
    }
    let last = port.len() - 1;
    assert(!is_white(port[last]));
    assert(line[8 + last] == port[last]);
    assert(to > 8 + last) by {
        if to <= 8 + last {
            assert(is_white(line[8 + last]));
        }
    }
    let n = 8 + port.len() as int;
    let behind = core.skip(n);
    assert(core.take(n) =~= "m=video"@ + seq![' '] + port);
    law_white_space_parts_words("m=video"@, ' ', port);
    law_white_space_parts_words(port, ' ', port);
    assert(is_word("m=video"@));
    let head = core.take(n);
    assert(words(head) =~= seq!["m=video"@, port]);
    if behind.len() == 0 {
        assert(core =~= head);
    } else {
        assert(behind[0] == line[n]);
        assert(line[n] == ' ');
        assert(core =~= head + seq![' '] + behind.skip(1));
        law_white_space_parts_words(head, ' ', behind.skip(1));
    }
    assert(words(core)[1] == port);
    let other = "m=audio "@ + port + " "@ + rest;
    assert(other[8] == port[0]);
    assert(other[0] == 'm');
    lemma_trimmed_begins_with(other, "m=video "@, 8);
    assert(other[2] == 'a');
    if begins_with(other, "m=video "@) {
        assert(other.subrange(0, 8)[2] == "m=video "@[2]);
    }
}

/// The refusal that is told is the first: lines in front that refuse nothing do not count,
/// and what stands behind it does not either.
pub proof fn law_first_refusal_is_told(
    before: Seq<Seq<char>>,
    line: Seq<char>,
    behind: Seq<Seq<char>>,
)
    requires
        forall|j: int| 0 <= j < before.len() ==> !refuses_video(#[trigger] before[j]),
    ensures
        refuses_video(line) ==> first_refusal(before + seq![line] + behind) == Some(trimmed(line)),
        !refuses_video(line) ==> first_refusal(before + seq![line] + behind) == first_refusal(
            behind,
        ),
        first_refusal(before) is None,
{
    let all = before + seq![line] + behind;
    assert forall|j: int| 0 <= j < before.len() implies !refuses_video(#[trigger] all[j]) by {
        assert(all[j] == before[j]);
    }
    let n = before.len() as int;
    lemma_first_refusal(all, n);
    lemma_first_refusal(before, n);
    assert(all.skip(n)[0] == line);
    assert(all.skip(n).skip(1) =~= behind);
}

/// A candidate's address is the fifth of the words behind `a=candidate:`. Where it is an
/// mDNS name it is replaced, and where it is not, or where there are too few words, the
/// line stays.
pub proof fn law_fifth_word_is_the_address(list: Seq<Seq<char>>, ip: Seq<char>)
    requires
        forall|k: int| 0 <= k < list.len() ==> is_word(#[trigger] list[k]),
    ensures
        ({
            let line = "a=candidate:"@ + joined_by(list, " "@);
            let hidden = list.len() >= 5 && list[4].len() >= 6 && list[4].skip(
                list[4].len() - 6,
            ) == ".local"@;
            &&& hidden ==> rewritten_line(line, ip) == "a=candidate:"@ + joined_by(
                list.update(4, ip),
                " "@,
            )
            &&& !hidden ==> rewritten_line(line, ip) == line
        }),
{
    reveal_strlit(".local");
    lemma_words_of_join(list);
    let prefix = "a=candidate:"@;
    let line = prefix + joined_by(list, " "@);
    assert(line.skip(prefix.len() as int) =~= joined_by(list, " "@));
    assert(line.subrange(0, prefix.len() as int) =~= prefix);
    if list.len() >= 5 && list[4].len() >= 6 {
        assert(list[4].skip(list[4].len() - 6) =~= list[4].subrange(
            list[4].len() - 6,
            list[4].len() as int,
        ));
    }
}

/// Carriage returns at the end of a line are dropped, all of them, and nothing else is.
pub proof fn law_returns_are_dropped(line: Seq<char>)
    ensures
        without_returns(line + seq!['\r']) == without_returns(line),
        line.len() == 0 || line.last() != '\r' ==> without_returns(line) == line,
{
    assert((line + seq!['\r']).drop_last() =~= line);
}

/// A description that ends with a line end comes back line by line, each as it is rewritten,
/// and ends with a line end again.
pub proof fn law_lines_come_back_rewritten(sdp: Seq<char>, ip: Seq<char>)
    requires
        is_terminated(sdp),
        lines(sdp).len() > 0,
        forall|k: int|
            0 <= k < lines(sdp).len() ==> !(#[trigger] rewritten_lines(sdp, ip)[k]).contains('\n'),
        forall|k: int|
            0 <= k < lines(sdp).len() ==> (#[trigger] rewritten_lines(sdp, ip)[k]).len() == 0
                || rewritten_lines(sdp, ip)[k].last() != '\r',
    ensures
        lines(rewritten(sdp, ip)).len() == lines(sdp).len(),
        forall|k: int|
            0 <= k < lines(sdp).len() ==> #[trigger] lines(rewritten(sdp, ip))[k] == rewritten_line(
                without_returns(lines(sdp)[k]),
                ip,
            ),
        rewritten(sdp, ip).last() == '\n',
        occurs_in(sdp, seq!['\r', '\n']) ==> rewritten(sdp, ip)[rewritten(sdp, ip).len() - 2] == '\r',
{
    law_joined_lines_are_found(rewritten_lines(sdp, ip), line_end(sdp));
    assert(line_end(sdp).last() == '\n');
    let out = rewritten(sdp, ip);
    assert(out.last() == line_end(sdp).last());
    if occurs_in(sdp, seq!['\r', '\n']) {
        assert(out[out.len() - 2] == line_end(sdp)[0]);
    }
}

/// A description without a line end behind its last line gets none: its lines are joined by
/// the line end that it uses.
pub proof fn law_no_line_end_is_added(sdp: Seq<char>, ip: Seq<char>)
    requires
        !is_terminated(sdp),
        lines(sdp).len() > 0,
    ensures
        rewritten_lines(sdp, ip).last().len() > 0 ==> rewritten(sdp, ip) == joined_by(
            rewritten_lines(sdp, ip),
            if occurs_in(sdp, seq!['\r', '\n']) {
                seq!['\r', '\n']
            } else {
                seq!['\n']
            },
        ),
        rewritten_lines(sdp, ip).last().len() == 0 ==> rewritten(sdp, ip) == joined_by(
            rewritten_lines(sdp, ip).drop_last(),
            if occurs_in(sdp, seq!['\r', '\n']) {
                seq!['\r', '\n']
            } else {
                seq!['\n']
            },
        ),
{
}

} // verus!
