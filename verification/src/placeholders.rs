//! Templates as texts and placeholders, and what expansion makes of them.

use crate::decimal::{all_digits, decimal_value, is_digit};
use crate::template::{
    expand_padded, expand_var, first_padded, lemma_no_dollar_is_settled, lemma_settled_is_fixed,
    lemma_tokens_hold_name, padded_end, digit_run_end, resolved_template, zero_padded, TemplateVar,
};
use crate::text::{occurs_at, replace_all, replace_from};
use vstd::prelude::*;

verus! {

/// A part of a template: a text, a plain placeholder `$Name$`, or a padded
/// placeholder `$Name%0Nd$`, of which the digits of the width are kept.
pub enum Piece {
    Text(Seq<char>),
    Plain(TemplateVar),
    Padded(TemplateVar, Seq<char>),
}

/// The piece is a placeholder.
pub open spec fn is_token(piece: Piece) -> bool {
    !(piece is Text)
}

/// The variable of a placeholder.
pub open spec fn var_of(piece: Piece) -> TemplateVar {
    match piece {
        Piece::Plain(var) => var,
        Piece::Padded(var, _) => var,
        Piece::Text(_) => TemplateVar::RepresentationID,
    }
}

/// How a piece is written in a template.
pub open spec fn written(piece: Piece) -> Seq<char> {
    match piece {
        Piece::Text(text) => text,
        Piece::Plain(var) => var.plain_token(),
        Piece::Padded(var, width) => var.padded_prefix() + width + seq!['d', '$'],
    }
}

/// The template that the pieces from position `i` on write, one after the
/// other.
pub open spec fn rendered_from(pieces: Seq<Piece>, i: int) -> Seq<char>
    decreases pieces.len() - i,
{
    if i < 0 || i >= pieces.len() {
        Seq::empty()
    } else {
        written(pieces[i]) + rendered_from(pieces, i + 1)
    }
}

/// The template that the pieces write.
pub open spec fn rendered(pieces: Seq<Piece>) -> Seq<char> {
    rendered_from(pieces, 0)
}

/// The letter that the name of a variable begins with.
pub open spec fn initial(var: TemplateVar) -> char {
    match var {
        TemplateVar::RepresentationID => 'R',
        TemplateVar::Number => 'N',
        TemplateVar::Time => 'T',
        TemplateVar::Bandwidth => 'B',
    }
}

/// `c` is a letter that the name of a variable begins with.
pub open spec fn is_initial(c: char) -> bool {
    c == 'R' || c == 'N' || c == 'T' || c == 'B'
}

/// `s` holds no dollar sign.
pub open spec fn dollar_free(s: Seq<char>) -> bool {
    forall|i: int| 0 <= i < s.len() ==> s[i] != '$'
}

/// `s` does not begin with the first letter of the name of a variable.
pub open spec fn begins_apart(s: Seq<char>) -> bool {
    s.len() == 0 || !is_initial(s[0])
}

proof fn lemma_name_shape(var: TemplateVar)
    ensures
        var.spec_name().len() > 0,
        var.spec_name()[0] == initial(var),
        dollar_free(var.spec_name()),
{
    reveal_strlit("RepresentationID");
    reveal_strlit("Number");
    reveal_strlit("Time");
    reveal_strlit("Bandwidth");
    let name = var.spec_name();
    assert forall|i: int| 0 <= i < name.len() implies name[i] != '$' by {
        if i == 0 {
        } else if i == 1 {
        } else if i == 2 {
        } else if i == 3 {
        } else if i == 4 {
        } else if i == 5 {
        } else if i == 6 {
        } else if i == 7 {
        } else if i == 8 {
        } else if i == 9 {
        } else if i == 10 {
        } else if i == 11 {
        } else if i == 12 {
        } else if i == 13 {
        } else if i == 14 {
        } else {
        }
    }
}

/// The two needles of a variable, its plain placeholder and the beginning of
/// its padded one, begin with a dollar sign and the name.
proof fn lemma_needle_shape(var: TemplateVar)
    ensures
        var.plain_token() == seq!['$'] + var.spec_name() + seq!['$'],
        var.padded_prefix() == seq!['$'] + var.spec_name() + seq!['%', '0'],
        var.plain_token().len() == var.spec_name().len() + 2,
        var.padded_prefix().len() == var.spec_name().len() + 3,
        var.plain_token()[0] == '$',
        var.padded_prefix()[0] == '$',
        var.plain_token()[1] == initial(var),
        var.padded_prefix()[1] == initial(var),
        var.plain_token()[var.spec_name().len() as int + 1] == '$',
        var.padded_prefix()[var.spec_name().len() as int + 1] == '%',
{
    lemma_tokens_hold_name(var);
    lemma_name_shape(var);
}

/// The width of a padded placeholder is written rightly: one or more digits,
/// of a value that can be counted.
pub open spec fn good_width(width: Seq<char>) -> bool {
    width.len() > 0 && all_digits(width) && decimal_value(width) <= usize::MAX
}

/// A placeholder begins and ends with a dollar sign, holds none between
/// them, and has the first letter of its variable after the first.
proof fn lemma_token_shape(piece: Piece)
    requires
        is_token(piece),
        piece is Padded ==> all_digits(piece->Padded_1),
    ensures
        written(piece).len() >= 3,
        written(piece)[0] == '$',
        written(piece)[1] == initial(var_of(piece)),
        written(piece)[written(piece).len() - 1] == '$',
        forall|k: int| 0 < k < written(piece).len() - 1 ==> written(piece)[k] != '$',
{
    let var = var_of(piece);
    let name = var.spec_name();
    lemma_needle_shape(var);
    lemma_name_shape(var);
    let tok = written(piece);
    match piece {
        Piece::Plain(_) => {
            assert forall|k: int| 0 < k < tok.len() - 1 implies tok[k] != '$' by {
                assert(tok[k] == name[k - 1]);
            }
        },
        Piece::Padded(_, width) => {
            let prefix = var.padded_prefix();
            assert(tok.len() == prefix.len() + width.len() + 2);
            assert(tok[0] == prefix[0]);
            assert(tok[1] == prefix[1]);
            assert forall|k: int| 0 < k < tok.len() - 1 implies tok[k] != '$' by {
                if k < 1 + name.len() {
                    assert(tok[k] == prefix[k]);
                    assert(prefix[k] == name[k - 1]);
                } else if k < prefix.len() {
                    assert(tok[k] == prefix[k]);
                } else if k < prefix.len() + width.len() {
                    assert(tok[k] == width[k - prefix.len()]);
                    assert(is_digit(width[k - prefix.len()]));
                } else {
                    assert(tok[k] == 'd');
                }
            }
        },
        Piece::Text(_) => {},
    }
}

/// Replacing in what follows a text is replacing in that alone.
proof fn lemma_replace_suffix(
    head: Seq<char>,
    tail: Seq<char>,
    needle: Seq<char>,
    with: Seq<char>,
    k: int,
)
    requires
        0 <= k <= tail.len(),
    ensures
        replace_from(head + tail, needle, with, head.len() + k) == replace_from(
            tail,
            needle,
            with,
            k,
        ),
    decreases tail.len() - k,
{
    let hay = head + tail;
    let at = head.len() + k;
    if k < tail.len() {
        if needle.len() == 0 {
            assert(hay.subrange(at, hay.len() as int) =~= tail.subrange(k, tail.len() as int));
        } else {
            if at + needle.len() <= hay.len() {
                assert(hay.subrange(at, at + needle.len()) =~= tail.subrange(
                    k,
                    k + needle.len(),
                ));
            }
            assert(occurs_at(hay, at, needle) == occurs_at(tail, k, needle));
            assert(hay[at] == tail[k]);
            if occurs_at(hay, at, needle) {
                lemma_replace_suffix(head, tail, needle, with, k + needle.len());
            } else {
                lemma_replace_suffix(head, tail, needle, with, k + 1);
            }
        }
    }
}

/// Where the needle stands nowhere in the first part of a text, replacing
/// leaves that part as it is.
proof fn lemma_replace_skips(
    head: Seq<char>,
    tail: Seq<char>,
    needle: Seq<char>,
    with: Seq<char>,
    k: int,
)
    requires
        0 <= k <= head.len(),
        needle.len() > 0,
        forall|j: int| 0 <= j < head.len() ==> !occurs_at(head + tail, j, needle),
    ensures
        replace_from(head + tail, needle, with, k) == head.subrange(k, head.len() as int)
            + replace_from(tail, needle, with, 0),
    decreases head.len() - k,
{
    let hay = head + tail;
    if k == head.len() {
        lemma_replace_suffix(head, tail, needle, with, 0);
        assert(head.subrange(k, head.len() as int) + replace_from(tail, needle, with, 0)
            =~= replace_from(tail, needle, with, 0));
        if tail.len() == 0 {
            assert(replace_from(hay, needle, with, k) =~= Seq::<char>::empty());
        }
    } else {
        assert(!occurs_at(hay, k, needle));
        lemma_replace_skips(head, tail, needle, with, k + 1);
        assert(hay[k] == head[k]);
        assert(seq![hay[k]] + (head.subrange(k + 1, head.len() as int) + replace_from(
            tail,
            needle,
            with,
            0,
        )) =~= head.subrange(k, head.len() as int) + replace_from(tail, needle, with, 0));
    }
}

/// A needle that begins with a dollar sign and the first letter of a name
/// stands nowhere in a text without dollar signs.
proof fn lemma_absent_in_text(text: Seq<char>, tail: Seq<char>, needle: Seq<char>)
    requires
        dollar_free(text),
        needle.len() > 0,
        needle[0] == '$',
    ensures
        forall|j: int| 0 <= j < text.len() ==> !occurs_at(text + tail, j, needle),
{
    let hay = text + tail;
    assert forall|j: int| 0 <= j < text.len() implies !occurs_at(hay, j, needle) by {
        if occurs_at(hay, j, needle) {
            assert(hay.subrange(j, j + needle.len())[0] == hay[j]);
            assert(hay[j] == text[j]);
        }
    }
}

/// A needle of a variable stands nowhere in a placeholder that it does not
/// begin, where what follows the placeholder does not begin with the first
/// letter of a name.
proof fn lemma_absent_in_token(piece: Piece, tail: Seq<char>, needle: Seq<char>, var: TemplateVar)
    requires
        is_token(piece),
        piece is Padded ==> all_digits(piece->Padded_1),
        begins_apart(tail),
        needle == var.plain_token() || needle == var.padded_prefix(),
        !(needle == var.plain_token() && piece == Piece::Plain(var)),
        !(needle == var.padded_prefix() && piece is Padded && var_of(piece) == var),
    ensures
        forall|j: int| 0 <= j < written(piece).len() ==> !occurs_at(written(piece) + tail, j, needle),
{
    let tok = written(piece);
    let hay = tok + tail;
    let other = var_of(piece);
    lemma_token_shape(piece);
    lemma_needle_shape(var);
    lemma_needle_shape(other);
    lemma_name_shape(var);
    let n = var.spec_name().len() as int;
    assert forall|j: int| 0 <= j < tok.len() implies !occurs_at(hay, j, needle) by {
        if occurs_at(hay, j, needle) {
            let found = hay.subrange(j, j + needle.len());
            assert(found[0] == hay[j]);
            assert(found[1] == hay[j + 1]);
            assert(found[n + 1] == hay[j + n + 1]);
            if j == 0 {
                assert(hay[1] == tok[1]);
                if other == var {
                    // The same name: the needle and the placeholder part
                    // after it, at a dollar sign against a per cent sign.
                    match piece {
                        Piece::Plain(_) => {
                            assert(tok[n + 1] == '$');
                            assert(hay[n + 1] == tok[n + 1]);
                        },
                        Piece::Padded(_, width) => {
                            assert(tok[n + 1] == var.padded_prefix()[n + 1]);
                            assert(hay[n + 1] == tok[n + 1]);
                        },
                        Piece::Text(_) => {},
                    }
                }
            } else if j < tok.len() - 1 {
                assert(hay[j] == tok[j]);
            } else {
                if tail.len() > 0 {
                    assert(hay[j + 1] == tail[0]);
                }
            }
        }
    }
}


/// The texts among the pieces hold no dollar sign, and the widths of the
/// padded placeholders are written rightly.
pub open spec fn plainly_written(pieces: Seq<Piece>) -> bool {
    forall|i: int|
        0 <= i < pieces.len() ==> match #[trigger] pieces[i] {
            Piece::Text(text) => dollar_free(text),
            Piece::Plain(_) => true,
            Piece::Padded(_, width) => good_width(width),
        }
}

/// What a piece is expanded to: a text is left as it is; a placeholder
/// gives the value of its variable, padded with zeros where it says so.
pub open spec fn expansion(piece: Piece, vars: Map<TemplateVar, Seq<char>>) -> Seq<char> {
    match piece {
        Piece::Text(text) => text,
        Piece::Plain(var) => vars[var],
        Piece::Padded(var, width) => zero_padded(vars[var], decimal_value(width) as nat),
    }
}

/// A placeholder is kept apart from what follows it: the piece after it,
/// where there is one, is expanded to a text that is not empty and does not
/// begin with the first letter of the name of a variable.
pub open spec fn separated(pieces: Seq<Piece>, vars: Map<TemplateVar, Seq<char>>) -> bool {
    forall|i: int|
        0 <= i && i + 1 < pieces.len() && is_token(#[trigger] pieces[i]) ==> expansion(
            pieces[i + 1],
            vars,
        ).len() > 0 && !is_initial(expansion(pieces[i + 1], vars)[0])
}

proof fn lemma_tail_begins_apart(pieces: Seq<Piece>, vars: Map<TemplateVar, Seq<char>>, i: int)
    requires
        plainly_written(pieces),
        separated(pieces, vars),
        0 <= i < pieces.len(),
        is_token(pieces[i]),
    ensures
        begins_apart(rendered_from(pieces, i + 1)),
{
    if i + 1 < pieces.len() {
        let next = pieces[i + 1];
        let head = written(next);
        assert(rendered_from(pieces, i + 1) == head + rendered_from(pieces, i + 2));
        if is_token(next) {
            lemma_token_shape(next);
        }
        assert(head.len() > 0);
        assert(rendered_from(pieces, i + 1)[0] == head[0]);
    }
}

/// The pieces with every plain placeholder of a variable replaced by the
/// value of the variable.
pub open spec fn plain_expanded(pieces: Seq<Piece>, var: TemplateVar, value: Seq<char>) -> Seq<
    Piece,
> {
    Seq::new(
        pieces.len(),
        |i: int|
            if pieces[i] == Piece::Plain(var) {
                Piece::Text(value)
            } else {
                pieces[i]
            },
    )
}

proof fn lemma_plain_pass(
    pieces: Seq<Piece>,
    vars: Map<TemplateVar, Seq<char>>,
    i: int,
    var: TemplateVar,
    value: Seq<char>,
)
    requires
        plainly_written(pieces),
        separated(pieces, vars),
        0 <= i <= pieces.len(),
    ensures
        replace_from(rendered_from(pieces, i), var.plain_token(), value, 0) == rendered_from(
            plain_expanded(pieces, var, value),
            i,
        ),
    decreases pieces.len() - i,
{
    let needle = var.plain_token();
    let after = plain_expanded(pieces, var, value);
    lemma_needle_shape(var);
    if i < pieces.len() {
        let piece = pieces[i];
        let head = written(piece);
        let tail = rendered_from(pieces, i + 1);
        let hay = head + tail;
        lemma_plain_pass(pieces, vars, i + 1, var, value);
        assert(rendered_from(after, i) == written(after[i]) + rendered_from(after, i + 1));
        if piece == Piece::Plain(var) {
            assert(hay.subrange(0, needle.len() as int) =~= needle);
            assert(occurs_at(hay, 0, needle));
            lemma_replace_suffix(head, tail, needle, value, 0);
        } else {
            match piece {
                Piece::Text(text) => {
                    lemma_absent_in_text(text, tail, needle);
                },
                _ => {
                    lemma_tail_begins_apart(pieces, vars, i);
                    lemma_absent_in_token(piece, tail, needle, var);
                },
            }
            lemma_replace_skips(head, tail, needle, value, 0);
            assert(head.subrange(0, head.len() as int) =~= head);
        }
    }
}

/// What replacing the plain placeholders of a variable makes of a template
/// written as pieces.
proof fn lemma_plain_expansion(
    pieces: Seq<Piece>,
    vars: Map<TemplateVar, Seq<char>>,
    var: TemplateVar,
)
    requires
        plainly_written(pieces),
        separated(pieces, vars),
        vars.contains_key(var),
        dollar_free(vars[var]),
    ensures
        replace_all(rendered(pieces), var.plain_token(), vars[var]) == rendered(
            plain_expanded(pieces, var, vars[var]),
        ),
        plainly_written(plain_expanded(pieces, var, vars[var])),
        separated(plain_expanded(pieces, var, vars[var]), vars),
{
    let value = vars[var];
    lemma_plain_pass(pieces, vars, 0, var, value);
    let after = plain_expanded(pieces, var, value);
    assert forall|i: int| 0 <= i && i + 1 < after.len() && is_token(
        #[trigger] after[i],
    ) implies expansion(after[i + 1], vars).len() > 0 && !is_initial(
        expansion(after[i + 1], vars)[0],
    ) by {
        assert(is_token(pieces[i]));
        assert(expansion(after[i + 1], vars) == expansion(pieces[i + 1], vars));
    }
}

/// The shift of a place in a text by the length of what is put before it.
pub open spec fn shifted(found: Option<(int, int)>, by: int) -> Option<(int, int)> {
    match found {
        Some((at, end)) => Some((at + by, end + by)),
        None => None,
    }
}

proof fn lemma_digit_run_suffix(head: Seq<char>, tail: Seq<char>, k: int)
    requires
        0 <= k,
    ensures
        digit_run_end(head + tail, head.len() + k) == head.len() + digit_run_end(tail, k),
    decreases tail.len() - k,
{
    if k < tail.len() {
        assert((head + tail)[head.len() + k] == tail[k]);
        if is_digit(tail[k]) {
            lemma_digit_run_suffix(head, tail, k + 1);
        }
    }
}

proof fn lemma_padded_end_suffix(head: Seq<char>, tail: Seq<char>, prefix: Seq<char>, k: int)
    requires
        0 <= k,
    ensures
        padded_end(head + tail, prefix, head.len() + k) == (match padded_end(tail, prefix, k) {
            Some(end) => Some(end + head.len()),
            None => None,
        }),
{
    let hay = head + tail;
    let at = head.len() + k;
    lemma_digit_run_suffix(head, tail, k + prefix.len());
    if at + prefix.len() <= hay.len() {
        assert(hay.subrange(at, at + prefix.len()) =~= tail.subrange(k, k + prefix.len()));
    }
    assert(occurs_at(hay, at, prefix) == occurs_at(tail, k, prefix));
    let to = digit_run_end(tail, k + prefix.len());
    if 0 <= to && to + 2 <= tail.len() {
        assert(hay[head.len() + to] == tail[to]);
        assert(hay[head.len() + to + 1] == tail[to + 1]);
    }
    lemma_digit_run_bounds(tail, k + prefix.len());
}

proof fn lemma_digit_run_bounds(s: Seq<char>, from: int)
    requires
        0 <= from,
    ensures
        from <= digit_run_end(s, from),
    decreases s.len() - from,
{
    if from < s.len() && is_digit(s[from]) {
        lemma_digit_run_bounds(s, from + 1);
    }
}

proof fn lemma_first_padded_suffix(head: Seq<char>, tail: Seq<char>, prefix: Seq<char>, k: int)
    requires
        0 <= k <= tail.len(),
    ensures
        first_padded(head + tail, prefix, head.len() + k) == shifted(
            first_padded(tail, prefix, k),
            head.len() as int,
        ),
    decreases tail.len() - k,
{
    if k < tail.len() {
        lemma_padded_end_suffix(head, tail, prefix, k);
        if padded_end(tail, prefix, k) is None {
            lemma_first_padded_suffix(head, tail, prefix, k + 1);
        }
    }
}

/// Where no padded placeholder begins in the first part of a text, the
/// first one is the first of the rest.
proof fn lemma_first_padded_skips(head: Seq<char>, tail: Seq<char>, prefix: Seq<char>, k: int)
    requires
        0 <= k <= head.len(),
        forall|j: int| 0 <= j < head.len() ==> !occurs_at(head + tail, j, prefix),
    ensures
        first_padded(head + tail, prefix, k) == shifted(
            first_padded(tail, prefix, 0),
            head.len() as int,
        ),
    decreases head.len() - k,
{
    if k == head.len() {
        lemma_first_padded_suffix(head, tail, prefix, 0);
    } else {
        assert(!occurs_at(head + tail, k, prefix));
        lemma_first_padded_skips(head, tail, prefix, k + 1);
    }
}

proof fn lemma_digit_run(s: Seq<char>, from: int, to: int)
    requires
        0 <= from <= to < s.len(),
        forall|j: int| from <= j < to ==> is_digit(s[j]),
        !is_digit(s[to]),
    ensures
        digit_run_end(s, from) == to,
    decreases to - from,
{
    if from < to {
        lemma_digit_run(s, from + 1, to);
    }
}

/// A padded placeholder of a variable is found where it is written.
proof fn lemma_padded_found(var: TemplateVar, width: Seq<char>, tail: Seq<char>)
    requires
        good_width(width),
    ensures
        first_padded(written(Piece::Padded(var, width)) + tail, var.padded_prefix(), 0) == Some(
            (0int, written(Piece::Padded(var, width)).len() as int),
        ),
{
    let prefix = var.padded_prefix();
    let tok = written(Piece::Padded(var, width));
    let hay = tok + tail;
    lemma_needle_shape(var);
    let from = prefix.len() as int;
    let to = from + width.len();
    assert(tok.len() == to + 2);
    assert(hay.subrange(0, prefix.len() as int) =~= prefix);
    assert forall|j: int| from <= j < to implies is_digit(hay[j]) by {
        assert(hay[j] == width[j - from]);
    }
    assert(hay[to] == 'd');
    assert(hay[to + 1] == '$');
    lemma_digit_run(hay, from, to);
}

/// What the pieces from position `i` up to, not including, position `k`
/// write.
pub open spec fn rendered_between(pieces: Seq<Piece>, i: int, k: int) -> Seq<char>
    decreases k - i,
{
    if i < 0 || i >= k || i >= pieces.len() {
        Seq::empty()
    } else {
        written(pieces[i]) + rendered_between(pieces, i + 1, k)
    }
}

/// The position, at or after `i`, of the first padded placeholder of a
/// variable, or the number of pieces where there is none.
pub open spec fn padded_index(pieces: Seq<Piece>, var: TemplateVar, i: int) -> int
    decreases pieces.len() - i,
{
    if i < 0 || i >= pieces.len() {
        pieces.len() as int
    } else if pieces[i] is Padded && var_of(pieces[i]) == var {
        i
    } else {
        padded_index(pieces, var, i + 1)
    }
}

proof fn lemma_padded_index(pieces: Seq<Piece>, var: TemplateVar, i: int)
    requires
        0 <= i <= pieces.len(),
    ensures
        i <= padded_index(pieces, var, i) <= pieces.len(),
        padded_index(pieces, var, i) < pieces.len() ==> pieces[padded_index(pieces, var, i)]
            is Padded && var_of(pieces[padded_index(pieces, var, i)]) == var,
        forall|j: int|
            i <= j < padded_index(pieces, var, i) ==> !(pieces[j] is Padded && var_of(pieces[j])
                == var),
    decreases pieces.len() - i,
{
    if i < pieces.len() && !(pieces[i] is Padded && var_of(pieces[i]) == var) {
        lemma_padded_index(pieces, var, i + 1);
    }
}

proof fn lemma_rendered_split(pieces: Seq<Piece>, i: int, k: int)
    requires
        0 <= i <= k <= pieces.len(),
    ensures
        rendered_from(pieces, i) == rendered_between(pieces, i, k) + rendered_from(pieces, k),
    decreases k - i,
{
    if i < k {
        lemma_rendered_split(pieces, i + 1, k);
        assert(written(pieces[i]) + (rendered_between(pieces, i + 1, k) + rendered_from(pieces, k))
            =~= (written(pieces[i]) + rendered_between(pieces, i + 1, k)) + rendered_from(
            pieces,
            k,
        ));
    } else {
        assert(rendered_between(pieces, i, k) + rendered_from(pieces, k) =~= rendered_from(
            pieces,
            k,
        ));
    }
}

/// Where the first padded placeholder of a variable stands in what the
/// pieces from position `i` on write.
proof fn lemma_padded_pass(
    pieces: Seq<Piece>,
    vars: Map<TemplateVar, Seq<char>>,
    i: int,
    var: TemplateVar,
)
    requires
        plainly_written(pieces),
        separated(pieces, vars),
        0 <= i <= pieces.len(),
    ensures
        ({
            let k = padded_index(pieces, var, i);
            let found = first_padded(rendered_from(pieces, i), var.padded_prefix(), 0);
            if k < pieces.len() {
                found == Some(
                    (
                        rendered_between(pieces, i, k).len() as int,
                        (rendered_between(pieces, i, k).len() + written(pieces[k]).len()) as int,
                    ),
                )
            } else {
                found is None
            }
        }),
    decreases pieces.len() - i,
{
    let prefix = var.padded_prefix();
    lemma_needle_shape(var);
    if i < pieces.len() {
        let piece = pieces[i];
        let head = written(piece);
        let tail = rendered_from(pieces, i + 1);
        if piece is Padded && var_of(piece) == var {
            lemma_padded_found(var, piece->Padded_1, tail);
            assert(rendered_between(pieces, i, i) =~= Seq::<char>::empty());
        } else {
            lemma_padded_pass(pieces, vars, i + 1, var);
            match piece {
                Piece::Text(text) => {
                    lemma_absent_in_text(text, tail, prefix);
                },
                _ => {
                    lemma_tail_begins_apart(pieces, vars, i);
                    lemma_absent_in_token(piece, tail, prefix, var);
                },
            }
            lemma_first_padded_skips(head, tail, prefix, 0);
            let k = padded_index(pieces, var, i);
            lemma_padded_index(pieces, var, i + 1);
            if k < pieces.len() {
                assert(rendered_between(pieces, i, k) == head + rendered_between(
                    pieces,
                    i + 1,
                    k,
                ));
            }
        }
    }
}

/// The pieces with the first padded placeholder of a variable replaced by
/// the padded value of the variable.
pub open spec fn padded_expanded(pieces: Seq<Piece>, var: TemplateVar, value: Seq<char>) -> Seq<
    Piece,
> {
    let k = padded_index(pieces, var, 0);
    if k < pieces.len() {
        pieces.update(
            k,
            Piece::Text(zero_padded(value, decimal_value(pieces[k]->Padded_1) as nat)),
        )
    } else {
        pieces
    }
}

proof fn lemma_rendered_update(pieces: Seq<Piece>, k: int, piece: Piece, i: int)
    requires
        0 <= i <= pieces.len(),
        0 <= k < pieces.len(),
    ensures
        rendered_from(pieces.update(k, piece), i) == (if i <= k {
            rendered_between(pieces, i, k) + written(piece) + rendered_from(pieces, k + 1)
        } else {
            rendered_from(pieces, i)
        }),
    decreases pieces.len() - i,
{
    let changed = pieces.update(k, piece);
    if i < pieces.len() {
        lemma_rendered_update(pieces, k, piece, i + 1);
        if i < k {
            assert(written(pieces[i]) + (rendered_between(pieces, i + 1, k) + written(piece)
                + rendered_from(pieces, k + 1)) =~= rendered_between(pieces, i, k) + written(piece)
                + rendered_from(pieces, k + 1));
        } else if i == k {
            assert(rendered_between(pieces, i, k) + written(piece) + rendered_from(pieces, k + 1)
                =~= written(piece) + rendered_from(pieces, k + 1));
        }
    }
}

/// What expanding the first padded placeholder of a variable makes of a
/// template written as pieces.
proof fn lemma_padded_expansion(
    pieces: Seq<Piece>,
    vars: Map<TemplateVar, Seq<char>>,
    var: TemplateVar,
)
    requires
        plainly_written(pieces),
        separated(pieces, vars),
        vars.contains_key(var),
        dollar_free(vars[var]),
    ensures
        expand_padded(rendered(pieces), var.padded_prefix(), vars[var]) == rendered(
            padded_expanded(pieces, var, vars[var]),
        ),
        plainly_written(padded_expanded(pieces, var, vars[var])),
        separated(padded_expanded(pieces, var, vars[var]), vars),
{
    let value = vars[var];
    let prefix = var.padded_prefix();
    let hay = rendered(pieces);
    let k = padded_index(pieces, var, 0);
    let after = padded_expanded(pieces, var, value);
    lemma_padded_pass(pieces, vars, 0, var);
    lemma_padded_index(pieces, var, 0);
    lemma_needle_shape(var);
    if k < pieces.len() {
        let width = pieces[k]->Padded_1;
        assert(pieces[k] == Piece::Padded(var, width));
        let before = rendered_between(pieces, 0, k);
        let tok = written(pieces[k]);
        let rest = rendered_from(pieces, k + 1);
        lemma_rendered_split(pieces, 0, k);
        assert(rendered_from(pieces, k) == tok + rest);
        assert(hay =~= before + tok + rest);
        let at = before.len() as int;
        let end = at + tok.len();
        assert(hay.subrange(at + prefix.len(), end - 2) =~= width);
        assert(hay.subrange(0, at) =~= before);
        assert(hay.subrange(end, hay.len() as int) =~= rest);
        let padded = zero_padded(value, decimal_value(width) as nat);
        lemma_rendered_update(pieces, k, Piece::Text(padded), 0);
        assert(dollar_free(padded)) by {
            assert forall|j: int| 0 <= j < padded.len() implies padded[j] != '$' by {
                if value.len() < decimal_value(width) as nat {
                    let zeros = (decimal_value(width) as nat - value.len()) as int;
                    if j >= zeros {
                        assert(padded[j] == value[j - zeros]);
                    }
                }
            }
        }
        assert forall|i: int| 0 <= i && i + 1 < after.len() && is_token(
            #[trigger] after[i],
        ) implies expansion(after[i + 1], vars).len() > 0 && !is_initial(
            expansion(after[i + 1], vars)[0],
        ) by {
            assert(is_token(pieces[i]));
            assert(expansion(after[i + 1], vars) == expansion(pieces[i + 1], vars));
        }
    }
}


/// No variable has two padded placeholders among the pieces.
pub open spec fn one_padded(pieces: Seq<Piece>) -> bool {
    forall|i: int, j: int|
        0 <= i < j < pieces.len() && (#[trigger] pieces[i]) is Padded && (#[trigger] pieces[j])
            is Padded ==> var_of(pieces[i]) != var_of(pieces[j])
}

/// The variable of every placeholder among the pieces is bound.
pub open spec fn placeholders_bound(pieces: Seq<Piece>, vars: Map<TemplateVar, Seq<char>>) -> bool {
    forall|i: int|
        0 <= i < pieces.len() && is_token(#[trigger] pieces[i]) ==> vars.contains_key(
            var_of(pieces[i]),
        )
}

/// No value holds a dollar sign.
pub open spec fn values_dollar_free(vars: Map<TemplateVar, Seq<char>>) -> bool {
    forall|var: TemplateVar| vars.contains_key(var) ==> dollar_free(#[trigger] vars[var])
}

/// The pieces with the placeholders of the variables that are done replaced
/// by what they are expanded to.
pub open spec fn expanded_for(
    pieces: Seq<Piece>,
    vars: Map<TemplateVar, Seq<char>>,
    done: Set<TemplateVar>,
) -> Seq<Piece> {
    Seq::new(
        pieces.len(),
        |i: int|
            if is_token(pieces[i]) && done.contains(var_of(pieces[i])) {
                Piece::Text(expansion(pieces[i], vars))
            } else {
                pieces[i]
            },
    )
}

/// The pieces with every placeholder replaced by what it is expanded to.
pub open spec fn expanded(pieces: Seq<Piece>, vars: Map<TemplateVar, Seq<char>>) -> Seq<Piece> {
    Seq::new(pieces.len(), |i: int| Piece::Text(expansion(pieces[i], vars)))
}

/// The conditions under which expansion goes piece by piece: texts without
/// dollar signs, widths written rightly, each placeholder kept apart from
/// what follows it, one padded placeholder of a variable at most, and every
/// placeholder bound to a value without dollar signs.
pub open spec fn well_formed(pieces: Seq<Piece>, vars: Map<TemplateVar, Seq<char>>) -> bool {
    &&& plainly_written(pieces)
    &&& separated(pieces, vars)
    &&& one_padded(pieces)
    &&& placeholders_bound(pieces, vars)
    &&& values_dollar_free(vars)
}

proof fn lemma_zero_padded_dollar_free(value: Seq<char>, width: nat)
    requires
        dollar_free(value),
    ensures
        dollar_free(zero_padded(value, width)),
{
    let padded = zero_padded(value, width);
    assert forall|j: int| 0 <= j < padded.len() implies padded[j] != '$' by {
        if value.len() < width {
            let zeros = (width - value.len()) as int;
            if j >= zeros {
                assert(padded[j] == value[j - zeros]);
            }
        }
    }
}

proof fn lemma_expansion_dollar_free(pieces: Seq<Piece>, vars: Map<TemplateVar, Seq<char>>, i: int)
    requires
        well_formed(pieces, vars),
        0 <= i < pieces.len(),
    ensures
        dollar_free(expansion(pieces[i], vars)),
{
    match pieces[i] {
        Piece::Text(_) => {},
        Piece::Plain(var) => {
            assert(is_token(pieces[i]));
        },
        Piece::Padded(var, width) => {
            assert(is_token(pieces[i]));
            lemma_zero_padded_dollar_free(vars[var], decimal_value(width) as nat);
        },
    }
}

proof fn lemma_stage_well_formed(
    pieces: Seq<Piece>,
    vars: Map<TemplateVar, Seq<char>>,
    done: Set<TemplateVar>,
)
    requires
        well_formed(pieces, vars),
    ensures
        plainly_written(expanded_for(pieces, vars, done)),
        separated(expanded_for(pieces, vars, done), vars),
{
    let stage = expanded_for(pieces, vars, done);
    assert forall|i: int| 0 <= i < stage.len() implies match #[trigger] stage[i] {
        Piece::Text(text) => dollar_free(text),
        Piece::Plain(_) => true,
        Piece::Padded(_, width) => good_width(width),
    } by {
        lemma_expansion_dollar_free(pieces, vars, i);
        let piece = pieces[i];
    }
    assert forall|i: int| 0 <= i && i + 1 < stage.len() && is_token(
        #[trigger] stage[i],
    ) implies expansion(stage[i + 1], vars).len() > 0 && !is_initial(
        expansion(stage[i + 1], vars)[0],
    ) by {
        assert(is_token(pieces[i]));
        assert(expansion(stage[i + 1], vars) == expansion(pieces[i + 1], vars));
    }
}

/// Expanding the placeholders of one more variable in a template written
/// as pieces.
proof fn lemma_stage(
    pieces: Seq<Piece>,
    vars: Map<TemplateVar, Seq<char>>,
    done: Set<TemplateVar>,
    var: TemplateVar,
)
    requires
        well_formed(pieces, vars),
        !done.contains(var),
    ensures
        expand_var(rendered(expanded_for(pieces, vars, done)), var, vars) == rendered(
            expanded_for(pieces, vars, done.insert(var)),
        ),
{
    let stage = expanded_for(pieces, vars, done);
    let next = expanded_for(pieces, vars, done.insert(var));
    lemma_stage_well_formed(pieces, vars, done);
    if vars.contains_key(var) {
        let value = vars[var];
        let first = plain_expanded(stage, var, value);
        lemma_plain_expansion(stage, vars, var);
        lemma_padded_expansion(first, vars, var);
        let second = padded_expanded(first, var, value);
        let k = padded_index(first, var, 0);
        lemma_padded_index(first, var, 0);
        assert(second.len() == next.len());
        assert forall|i: int| 0 <= i < next.len() implies second[i] == next[i] by {
            let piece = pieces[i];
            if piece is Padded && var_of(piece) == var {
                assert(stage[i] == piece);
                assert(first[i] == piece);
                if k != i {
                    assert(k < i);
                    assert(first[k] is Padded && var_of(first[k]) == var);
                    assert(stage[k] == first[k]);
                    assert(pieces[k] == stage[k]);
                    assert(pieces[k] is Padded && pieces[i] is Padded);
                }
            } else if k < first.len() && k == i {
                assert(first[k] is Padded && var_of(first[k]) == var);
                assert(stage[k] == first[k]);
                assert(pieces[k] == stage[k]);
            }
        }
        assert(second =~= next);
    } else {
        assert forall|i: int| 0 <= i < next.len() implies stage[i] == next[i] by {
            if is_token(pieces[i]) {
                assert(vars.contains_key(var_of(pieces[i])));
            }
        }
        assert(stage =~= next);
    }
}

proof fn lemma_texts_dollar_free(pieces: Seq<Piece>, i: int)
    requires
        0 <= i <= pieces.len(),
        forall|j: int|
            0 <= j < pieces.len() ==> (#[trigger] pieces[j]) is Text && dollar_free(
                pieces[j]->Text_0,
            ),
    ensures
        dollar_free(rendered_from(pieces, i)),
    decreases pieces.len() - i,
{
    if i < pieces.len() {
        lemma_texts_dollar_free(pieces, i + 1);
        let head = written(pieces[i]);
        let tail = rendered_from(pieces, i + 1);
        assert(pieces[i] is Text);
        assert forall|j: int| 0 <= j < (head + tail).len() implies (head + tail)[j] != '$' by {
            if j < head.len() {
                assert((head + tail)[j] == head[j]);
            } else {
                assert((head + tail)[j] == tail[j - head.len()]);
            }
        }
    }
}

/// What expansion makes of a template written as pieces: each placeholder
/// gives way to the value of its variable, padded where the placeholder
/// says so, and the texts stay. The result holds no dollar sign.
pub proof fn lemma_expansion_of_pieces(pieces: Seq<Piece>, vars: Map<TemplateVar, Seq<char>>)
    requires
        well_formed(pieces, vars),
    ensures
        resolved_template(rendered(pieces), vars) == rendered(expanded(pieces, vars)),
        dollar_free(rendered(expanded(pieces, vars))),
{
    let none = Set::<TemplateVar>::empty();
    let one = none.insert(TemplateVar::RepresentationID);
    let two = one.insert(TemplateVar::Number);
    let three = two.insert(TemplateVar::Time);
    let all = three.insert(TemplateVar::Bandwidth);
    assert(expanded_for(pieces, vars, none) =~= pieces);
    lemma_stage(pieces, vars, none, TemplateVar::RepresentationID);
    lemma_stage(pieces, vars, one, TemplateVar::Number);
    lemma_stage(pieces, vars, two, TemplateVar::Time);
    lemma_stage(pieces, vars, three, TemplateVar::Bandwidth);
    let last = expanded(pieces, vars);
    assert forall|i: int| 0 <= i < last.len() implies expanded_for(pieces, vars, all)[i]
        == last[i] by {
        let var = var_of(pieces[i]);
        assert(all.contains(var));
    }
    assert(expanded_for(pieces, vars, all) =~= last);
    assert forall|j: int| 0 <= j < last.len() implies (#[trigger] last[j]) is Text && dollar_free(
        last[j]->Text_0,
    ) by {
        lemma_expansion_dollar_free(pieces, vars, j);
    }
    lemma_texts_dollar_free(last, 0);
}

/// Expanding a template twice gives what expanding it once gives, for every
/// template that is written as texts and placeholders under the conditions
/// of `well_formed`.
pub proof fn lemma_pieces_idempotent(pieces: Seq<Piece>, vars: Map<TemplateVar, Seq<char>>)
    requires
        well_formed(pieces, vars),
    ensures
        resolved_template(resolved_template(rendered(pieces), vars), vars) == resolved_template(
            rendered(pieces),
            vars,
        ),
{
    lemma_expansion_of_pieces(pieces, vars);
    let once = resolved_template(rendered(pieces), vars);
    assert(!once.contains('$')) by {
        if once.contains('$') {
            let i = choose|i: int| 0 <= i < once.len() && once[i] == '$';
            assert(once[i] != '$');
        }
    }
    lemma_no_dollar_is_settled(once, vars);
    lemma_settled_is_fixed(once, vars);
}

} // verus!
