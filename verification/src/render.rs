//! The text of a message: the primary message, then one block for each
//! attachment.
//!
//! ```text
//! primary message
//!
//!   = help: first line
//!         second line
//!   = note: another attachment
//! ```

use crate::text::{
    chars_of, first_line, is_white_space, lines_of, push_all, push_spaces, push_text, spaces, split_lines,
    string_of, trim_end, trim_end_in_place, views,
};
use vstd::prelude::*;
use vstd::utf8::encode_utf8;

verus! {

/// A label and the text attached under it.
pub type Attached = (Seq<char>, Seq<char>);

/// The width that a label takes when lines are aligned under it: its length
/// in bytes.
pub open spec fn label_width(label: Seq<char>) -> nat {
    (encode_utf8(label).len() as usize) as nat
}

/// The lines of `text` behind the first.
pub open spec fn later_lines(text: Seq<char>) -> Seq<Seq<char>> {
    if lines_of(text).len() > 0 {
        lines_of(text).skip(1)
    } else {
        Seq::empty()
    }
}

/// Each of `lines` on a line of its own, shifted right so that it starts
/// under the colon behind a label of the given width: by two spaces, two
/// more for `= `, and the width of the label.
pub open spec fn continuation(lines: Seq<Seq<char>>, width: nat) -> Seq<char>
    decreases lines.len(),
{
    if lines.len() == 0 {
        Seq::empty()
    } else {
        continuation(lines.drop_last(), width) + seq![' ', ' ', ' ', ' '] + spaces(width)
            + lines.last() + seq!['\n']
    }
}

/// How the line of an attachment starts: `  = label: `.
pub open spec fn heading(label: Seq<char>) -> Seq<char> {
    seq![' ', ' ', '=', ' '] + label + seq![':', ' ']
}

/// The block of one attachment: the heading with the first line of the text,
/// then the other lines, aligned.
pub open spec fn render_attachment(label: Seq<char>, text: Seq<char>) -> Seq<char> {
    heading(label) + first_line(text) + seq!['\n'] + continuation(
        later_lines(text),
        label_width(label),
    )
}

/// The blocks of all attachments, in their order.
pub open spec fn render_attachments(attachments: Seq<Attached>) -> Seq<char>
    decreases attachments.len(),
{
    if attachments.len() == 0 {
        Seq::empty()
    } else {
        render_attachments(attachments.drop_last()) + render_attachment(
            attachments.last().0,
            attachments.last().1,
        )
    }
}

/// What separates the primary message from the attachments: an empty line,
/// and nothing where there is no attachment.
pub open spec fn separator(attachments: Seq<Attached>) -> Seq<char> {
    if attachments.len() > 0 {
        seq!['\n', '\n']
    } else {
        Seq::empty()
    }
}

/// The whole text of a message: the primary message without the white space
/// at its end, the separator, the attachments.
pub open spec fn render_message(msg: Seq<char>, attachments: Seq<Attached>) -> Seq<char> {
    trim_end(msg) + separator(attachments) + render_attachments(attachments)
}

/// What the rendering holds for one attachment, whatever else it holds: a
/// line feed, the heading and the first line of the text.
pub open spec fn attachment_mark(attached: Attached) -> Seq<char> {
    seq!['\n'] + heading(attached.0) + first_line(attached.1)
}

/// Where the mark of the attachment at `index` starts in the rendering.
pub open spec fn mark_offset(msg: Seq<char>, attachments: Seq<Attached>, index: int) -> int {
    (trim_end(msg).len() + 1 + render_attachments(attachments.take(index)).len()) as int
}

/// Appends the block of one attachment to `out`.
pub fn push_attachment(out: &mut Vec<char>, label: &str, text: &str)
    ensures
        final(out)@ == old(out)@ + render_attachment(label@, text@),
{
    out.push(' ');
    out.push(' ');
    out.push('=');
    out.push(' ');
    push_text(out, label);
    out.push(':');
    out.push(' ');
    let chars = chars_of(text);
    let lines = split_lines(&chars);
    if lines.len() > 0 {
        push_all(out, &lines[0]);
    }
    out.push('\n');
    let width = label.len();
    let ghost base = out@;
    let ghost rest = later_lines(text@);
    assert(base == old(out)@ + heading(label@) + first_line(text@) + seq!['\n']);
    let mut i: usize = 1;
    while i < lines.len()
        invariant
            1 <= i,
            i <= lines.len() || i == 1,
            views(lines@) == lines_of(text@),
            rest == later_lines(text@),
            width as nat == label_width(label@),
            out@ == base + continuation(rest.take(i - 1), width as nat),
        decreases lines.len() - i,
    {
        out.push(' ');
        out.push(' ');
        out.push(' ');
        out.push(' ');
        push_spaces(out, width);
        push_all(out, &lines[i]);
        out.push('\n');
        proof {
            assert(rest.take(i as int).drop_last() == rest.take(i - 1));
            assert(rest.take(i as int).last() == lines[i as int]@);
        }
        i += 1;
    }
    proof {
        assert(views(lines@).len() == lines.len());
        assert(rest.len() == i - 1);
        assert(rest.take(i - 1) == rest);
    }
}

/// The text of a message with the given attachments, each a label and a
/// text.
pub fn render_text(msg: &str, attachments: &Vec<(&'static str, String)>) -> (text: String)
    ensures
        text@ == render_message(msg@, attached(attachments@)),
{
    let mut out = chars_of(msg);
    trim_end_in_place(&mut out);
    if attachments.len() > 0 {
        out.push('\n');
        out.push('\n');
    }
    let ghost all = attached(attachments@);
    let mut i: usize = 0;
    while i < attachments.len()
        invariant
            i <= attachments.len(),
            all == attached(attachments@),
            out@ == trim_end(msg@) + separator(all) + render_attachments(all.take(i as int)),
        decreases attachments.len() - i,
    {
        let label: &str = attachments[i].0;
        push_attachment(&mut out, label, attachments[i].1.as_str());
        proof {
            assert(all.take(i + 1).drop_last() == all.take(i as int));
            assert(all.take(i + 1).last() == all[i as int]);
        }
        i += 1;
    }
    proof {
        assert(all.take(i as int) == all);
    }
    string_of(&out)
}

/// Later lines, where there are any, end with a line feed.
proof fn lemma_continuation_ends(lines: Seq<Seq<char>>, width: nat)
    ensures
        continuation(lines, width).len() == 0 || continuation(lines, width).last() == '\n',
    decreases lines.len(),
{
}

/// The block of an attachment starts with the heading and the first line
/// of the text, and ends with a line feed.
proof fn lemma_block_ends(label: Seq<char>, text: Seq<char>)
    ensures
        render_attachment(label, text).len() >= heading(label).len() + first_line(text).len() + 1,
        render_attachment(label, text).last() == '\n',
        render_attachment(label, text).subrange(
            0,
            (heading(label).len() + first_line(text).len()) as int,
        ) == heading(label) + first_line(text),
{
    lemma_continuation_ends(later_lines(text), label_width(label));
}

/// The blocks of one attachment or more end with a line feed.
proof fn lemma_blocks_end(attachments: Seq<Attached>)
    requires
        attachments.len() > 0,
    ensures
        render_attachments(attachments).len() > 0,
        render_attachments(attachments).last() == '\n',
{
    lemma_block_ends(attachments.last().0, attachments.last().1);
}

/// The blocks of all attachments start with the blocks of the first
/// `count` of them.
proof fn lemma_blocks_prefix(attachments: Seq<Attached>, count: int)
    requires
        0 <= count <= attachments.len(),
    ensures
        render_attachments(attachments.take(count)).len() <= render_attachments(attachments).len(),
        render_attachments(attachments).subrange(
            0,
            render_attachments(attachments.take(count)).len() as int,
        ) == render_attachments(attachments.take(count)),
    decreases attachments.len(),
{
    if count == attachments.len() {
        assert(attachments.take(count) == attachments);
    } else {
        lemma_blocks_prefix(attachments.drop_last(), count);
        assert(attachments.drop_last().take(count) == attachments.take(count));
    }
}

/// The text of a message shows every attachment, in the order in which the
/// attachments were added: for each of them the text holds, at
/// [`mark_offset`], a line feed, then `  = `, the label, `: ` and the first
/// line of the attached text; and the mark of an attachment ends before the
/// mark of the next one starts.
pub proof fn lemma_render_shows_attachments(
    msg: Seq<char>,
    attachments: Seq<Attached>,
    index: int,
)
    requires
        0 <= index < attachments.len(),
    ensures
        0 <= mark_offset(msg, attachments, index),
        mark_offset(msg, attachments, index) + attachment_mark(attachments[index]).len()
            <= render_message(msg, attachments).len(),
        render_message(msg, attachments).subrange(
            mark_offset(msg, attachments, index),
            mark_offset(msg, attachments, index) + attachment_mark(attachments[index]).len(),
        ) == attachment_mark(attachments[index]),
        index + 1 < attachments.len() ==> mark_offset(msg, attachments, index) + attachment_mark(
            attachments[index],
        ).len() <= mark_offset(msg, attachments, index + 1),
{
    let before = attachments.take(index);
    let upto = attachments.take(index + 1);
    let label = attachments[index].0;
    let text = attachments[index].1;
    let block = render_attachment(label, text);
    let blocks = render_attachments(attachments);
    let start = render_attachments(before).len() as int;
    let shown = heading(label) + first_line(text);
    assert(upto.drop_last() == before);
    assert(upto.last() == attachments[index]);
    assert(render_attachments(upto) == render_attachments(before) + block);
    lemma_block_ends(label, text);
    lemma_blocks_prefix(attachments, index + 1);
    lemma_blocks_prefix(attachments, index);
    assert(blocks.subrange(start, start + shown.len()) == shown) by {
        assert(blocks.subrange(0, start + block.len()) == render_attachments(before) + block);
        assert forall|i: int| 0 <= i < shown.len() implies blocks[start + i] == shown[i] by {
            assert(blocks[start + i] == blocks.subrange(0, start + block.len())[start + i]);
            assert(block.subrange(0, shown.len() as int)[i] == block[i]);
        }
    }
    let lead = trim_end(msg).len() + 1;
    let whole = render_message(msg, attachments);
    assert(whole == trim_end(msg) + seq!['\n', '\n'] + blocks);
    assert(whole[lead + start] == '\n') by {
        if index == 0 {
            assert(before.len() == 0);
        } else {
            lemma_blocks_end(before);
            assert(blocks[start - 1] == blocks.subrange(0, start)[start - 1]);
        }
    }
    assert(whole.subrange(lead + start, lead + start + 1 + shown.len()) == seq!['\n'] + shown) by {
        assert forall|i: int| 0 <= i < shown.len() implies whole[lead + start + 1 + i]
            == shown[i] by {
            assert(blocks.subrange(start, start + shown.len())[i] == blocks[start + i]);
        }
    }
    assert(attachment_mark(attachments[index]) == seq!['\n'] + shown);
}

/// A message without attachments that does not end with white space is
/// rendered as it stands.
pub proof fn lemma_plain_message_renders_as_it_stands(msg: Seq<char>)
    requires
        msg.len() == 0 || !is_white_space(msg.last()),
    ensures
        render_message(msg, Seq::empty()) == msg,
{
    assert(trim_end(msg) == msg);
    assert(render_attachments(Seq::<Attached>::empty()) == Seq::<char>::empty());
    assert(render_message(msg, Seq::empty()) =~= msg);
}

/// The labels and texts that the pairs of a message stand for.
pub open spec fn attached(attachments: Seq<(&'static str, String)>) -> Seq<Attached> {
    Seq::new(attachments.len(), |i: int| (attachments[i].0@, attachments[i].1@))
}

} // verus!
