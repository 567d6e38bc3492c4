use vstd::prelude::*;
use crate::ast::{ItemView, LabelArmView, LabelDefView, ValueDefView, Visibility};
use crate::ident::{is_ident, is_ident_continue};
use crate::lexer::{
    ident_end, is_space, lex, scan_string, skip_space, token, token_at, unescape, word_kind,
    KindView, ParseErrorView, StringScan, TokenView,
};
use crate::parser::{
    is_at, parse_item, parse_items, parse_label, parse_labels, parse_text, parse_values,
    string_at,
};

verus! {

/// A character of a string value as it is written between quotes: `\` and
/// `"` behind a `\`, any other character as it is.
pub open spec fn escaped_char(c: char) -> Seq<char> {
    if c == '\\' || c == '"' {
        seq!['\\', c]
    } else {
        seq![c]
    }
}

/// A string value as it is written between quotes.
pub open spec fn escaped(value: Seq<char>) -> Seq<char>
    decreases value.len(),
{
    if value.len() == 0 {
        Seq::empty()
    } else {
        escaped_char(value[0]) + escaped(value.drop_first())
    }
}

/// How a token of the kind `kind` is written.
pub open spec fn kind_text(kind: KindView) -> Seq<char> {
    match kind {
        KindView::Ident(name) => name,
        KindView::Str(value) => seq!['"'] + escaped(value) + seq!['"'],
        KindView::Pub => "pub"@,
        KindView::Struct => "struct"@,
        KindView::LabelEnum => "label_enum"@,
        KindView::Reserved => Seq::empty(),
        KindView::OpenBrace => seq!['{'],
        KindView::CloseBrace => seq!['}'],
        KindView::Colon => seq![':'],
        KindView::Comma => seq![','],
        KindView::FatArrow => seq!['=', '>'],
    }
}

/// `name` can be written as a name: it is an identifier, and neither a
/// keyword of the input language nor a reserved word.
pub open spec fn is_name(name: Seq<char>) -> bool {
    is_ident(name) && word_kind(name) == KindView::Ident(name)
}

/// A token of the kind `kind` can be written.
pub open spec fn writable(kind: KindView) -> bool {
    match kind {
        KindView::Ident(name) => is_name(name),
        KindView::Reserved => false,
        _ => true,
    }
}

/// The tokens of the kinds `kinds` as text: each token as it is written,
/// and a space behind it.
pub open spec fn render(kinds: Seq<KindView>) -> Seq<char>
    decreases kinds.len(),
{
    if kinds.len() == 0 {
        Seq::empty()
    } else {
        kind_text(kinds[0]) + seq![' '] + render(kinds.drop_first())
    }
}

/// The kinds of the tokens.
pub open spec fn kinds_of(tokens: Seq<TokenView>) -> Seq<KindView> {
    Seq::new(tokens.len(), |i: int| tokens[i].kind)
}

/// `text` stands in `s` at `pos`.
pub open spec fn stands_at(s: Seq<char>, pos: int, text: Seq<char>) -> bool {
    0 <= pos && pos + text.len() <= s.len() && s.subrange(pos, pos + text.len()) == text
}

/// An identifier ends where its characters end.
pub proof fn lemma_ident_end_at(s: Seq<char>, pos: int, end: int)
    requires
        0 <= pos <= end < s.len(),
        forall|i: int| pos <= i < end ==> is_ident_continue(#[trigger] s[i]),
        !is_ident_continue(s[end]),
    ensures
        ident_end(s, pos) == end,
    decreases end - pos,
{
    if pos < end {
        lemma_ident_end_at(s, pos + 1, end);
    }
}

/// The scan of an escaped value that stands at `pos` with its closing
/// quote gives the value back.
pub proof fn lemma_scan_escaped(s: Seq<char>, pos: int, value: Seq<char>, acc: Seq<char>)
    requires
        stands_at(s, pos, escaped(value) + seq!['"']),
    ensures
        scan_string(s, pos, acc) == (StringScan::Closed {
            value: acc + value,
            end: pos + escaped(value).len() + 1,
        }),
    decreases value.len(),
{
    let text = escaped(value) + seq!['"'];
    assert(s[pos] == text[0]) by {
        assert(s.subrange(pos, pos + text.len())[0] == s[pos]);
    }
    if value.len() == 0 {
        assert(acc + value =~= acc);
    } else {
        let c = value[0];
        let rest = value.drop_first();
        let tail = escaped(rest) + seq!['"'];
        let head = escaped_char(c);
        assert(text =~= head + tail);
        assert(acc + value =~= acc.push(c) + rest);
        assert(stands_at(s, pos + head.len(), tail)) by {
            assert(s.subrange(pos + head.len(), pos + head.len() + tail.len()) =~= s.subrange(
                pos,
                pos + text.len(),
            ).subrange(head.len() as int, text.len() as int));
            assert(text.subrange(head.len() as int, text.len() as int) =~= tail);
        }
        if c == '\\' || c == '"' {
            assert(s[pos + 1] == text[1]) by {
                assert(s.subrange(pos, pos + text.len())[1] == s[pos + 1]);
            }
            assert(unescape(c) == Some(c));
        }
        lemma_scan_escaped(s, pos + head.len(), rest, acc.push(c));
    }
}

/// Where the text of a token stands with a space behind it, the token is
/// read as what it is, and ends at the space.
pub proof fn lemma_token_of_text(s: Seq<char>, pos: int, kind: KindView)
    requires
        writable(kind),
        stands_at(s, pos, kind_text(kind) + seq![' ']),
    ensures
        kind_text(kind).len() > 0,
        !is_space(s[pos]),
        token_at(s, pos) == Ok::<(TokenView, int), ParseErrorView>(
            (
                token(s, kind, pos, pos + kind_text(kind).len()),
                pos + kind_text(kind).len(),
            ),
        ),
{
    reveal_strlit("pub");
    reveal_strlit("struct");
    reveal_strlit("label_enum");
    let text = kind_text(kind);
    let whole = text + seq![' '];
    let end = pos + text.len();
    assert forall|i: int| 0 <= i < whole.len() implies s[pos + i] == whole[i] by {
        assert(s.subrange(pos, pos + whole.len())[i] == s[pos + i]);
    }
    assert(s[end] == ' ') by {
        assert(whole[text.len() as int] == ' ');
    }
    assert forall|i: int| 0 <= i < text.len() implies s[pos + i] == text[i] by {
        assert(whole[i] == text[i]);
    }
    assert(s.subrange(pos, end) =~= text);
    match kind {
        KindView::Ident(_) | KindView::Pub | KindView::Struct | KindView::LabelEnum => {
            assert(is_ident(text));
            assert(s[pos] == text[0]);
            assert forall|i: int| pos + 1 <= i < end implies is_ident_continue(
                #[trigger] s[i],
            ) by {
                assert(s[i] == text[i - pos]);
            }
            lemma_ident_end_at(s, pos + 1, end);
        },
        KindView::Str(value) => {
            assert(s[pos] == text[0]);
            let inside = escaped(value) + seq!['"'];
            assert(text =~= seq!['"'] + inside);
            assert(s.subrange(pos + 1, pos + 1 + inside.len()) =~= inside) by {
                assert forall|i: int| 0 <= i < inside.len() implies s[pos + 1 + i]
                    == inside[i] by {
                    assert(text[i + 1] == inside[i]);
                }
            }
            lemma_scan_escaped(s, pos + 1, value, Seq::empty());
            assert(Seq::<char>::empty() + value =~= value);
        },
        KindView::FatArrow => {
            assert(s[pos] == text[0]);
            assert(s[pos + 1] == text[1]);
        },
        _ => {
            assert(s[pos] == text[0]);
        },
    }
}

/// From a space on, the tokens are those from behind the space on.
pub proof fn lemma_lex_skips_space(s: Seq<char>, pos: int)
    requires
        0 <= pos < s.len(),
        is_space(s[pos]),
    ensures
        lex(s, pos) == lex(s, pos + 1),
{
    assert(skip_space(s, pos) == skip_space(s, pos + 1));
}

/// Reading back what `render` wrote gives tokens of the kinds that were
/// written.
pub proof fn lemma_lex_of_render(s: Seq<char>, pos: int, kinds: Seq<KindView>)
    requires
        0 <= pos <= s.len(),
        s.subrange(pos, s.len() as int) == render(kinds),
        forall|i: int| 0 <= i < kinds.len() ==> writable(#[trigger] kinds[i]),
    ensures
        lex(s, pos) matches Ok(tokens) && kinds_of(tokens) == kinds,
    decreases kinds.len(),
{
    if kinds.len() == 0 {
        assert(s.subrange(pos, s.len() as int).len() == 0);
        assert(skip_space(s, pos) == pos);
        assert(kinds_of(Seq::<TokenView>::empty()) =~= kinds);
    } else {
        let kind = kinds[0];
        let rest = kinds.drop_first();
        let text = kind_text(kind);
        let tail = s.subrange(pos, s.len() as int);
        let end = pos + text.len();
        assert(tail == text + seq![' '] + render(rest));
        assert(stands_at(s, pos, text + seq![' '])) by {
            assert(s.subrange(pos, pos + text.len() + 1) =~= tail.subrange(
                0,
                text.len() as int + 1,
            ));
            assert(tail.subrange(0, text.len() as int + 1) =~= text + seq![' ']);
        }
        lemma_token_of_text(s, pos, kind);
        assert(skip_space(s, pos) == pos);
        assert(s[end] == ' ') by {
            assert(tail[text.len() as int] == ' ');
            assert(tail[text.len() as int] == s[pos + text.len()]);
        }
        lemma_lex_skips_space(s, end);
        assert(s.subrange(end + 1, s.len() as int) =~= render(rest)) by {
            assert(s.subrange(end + 1, s.len() as int) =~= tail.subrange(
                text.len() as int + 1,
                tail.len() as int,
            ));
        }
        assert forall|i: int| 0 <= i < rest.len() implies writable(#[trigger] rest[i]) by {
            assert(rest[i] == kinds[i + 1]);
        }
        lemma_lex_of_render(s, end + 1, rest);
        let first = token(s, kind, pos, end);
        let others = lex(s, end + 1)->Ok_0;
        assert(lex(s, pos) == Ok::<Seq<TokenView>, ParseErrorView>(
            seq![first] + others,
        ));
        assert(kinds_of(seq![first] + others) =~= kinds) by {
            assert forall|i: int| 0 <= i < kinds.len() implies kinds_of(seq![first] + others)[i]
                == kinds[i] by {
                if i > 0 {
                    assert(kinds_of(others)[i - 1] == rest[i - 1]);
                }
            }
        }
    }
}

/// The tokens of a value in full: `name: "value",`.
pub open spec fn value_kinds(v: ValueDefView) -> Seq<KindView> {
    seq![KindView::Ident(v.name), KindView::Colon, KindView::Str(v.value), KindView::Comma]
}

/// The tokens of a list of values, without the braces around them.
pub open spec fn values_kinds(values: Seq<ValueDefView>) -> Seq<KindView>
    decreases values.len(),
{
    if values.len() == 0 {
        Seq::empty()
    } else {
        value_kinds(values[0]) + values_kinds(values.drop_first())
    }
}

/// The tokens of what follows the arrow of a label.
pub open spec fn arm_kinds(arm: LabelArmView) -> Seq<KindView> {
    match arm {
        LabelArmView::Values(values) => seq![KindView::OpenBrace] + values_kinds(values)
            + seq![KindView::CloseBrace],
        LabelArmView::Enum(name) => seq![KindView::Ident(name)],
    }
}

/// The tokens of a label: `"key" => values,`.
pub open spec fn label_kinds(label: LabelDefView) -> Seq<KindView> {
    seq![KindView::Str(label.key), KindView::FatArrow] + arm_kinds(label.arm)
        + seq![KindView::Comma]
}

/// The tokens of a list of labels, without the braces around them.
pub open spec fn labels_kinds(labels: Seq<LabelDefView>) -> Seq<KindView>
    decreases labels.len(),
{
    if labels.len() == 0 {
        Seq::empty()
    } else {
        label_kinds(labels[0]) + labels_kinds(labels.drop_first())
    }
}

/// `pub` for what is public, nothing for what is private.
pub open spec fn visibility_kinds(v: Visibility) -> Seq<KindView> {
    match v {
        Visibility::Public => seq![KindView::Pub],
        Visibility::Inherited => Seq::empty(),
    }
}

/// The tokens of a declaration.
pub open spec fn item_kinds(item: ItemView) -> Seq<KindView> {
    match item {
        ItemView::Enum(e) => visibility_kinds(e.visibility) + seq![
            KindView::LabelEnum,
            KindView::Ident(e.name),
            KindView::OpenBrace,
        ] + values_kinds(e.values) + seq![KindView::CloseBrace],
        ItemView::Metric(m) => visibility_kinds(m.visibility) + seq![
            KindView::Struct,
            KindView::Ident(m.name),
            KindView::Colon,
            KindView::Ident(m.metric_type),
            KindView::OpenBrace,
        ] + labels_kinds(m.labels) + seq![KindView::CloseBrace],
    }
}

/// The tokens of a list of declarations.
pub open spec fn items_kinds(items: Seq<ItemView>) -> Seq<KindView>
    decreases items.len(),
{
    if items.len() == 0 {
        Seq::empty()
    } else {
        item_kinds(items[0]) + items_kinds(items.drop_first())
    }
}

/// The canonical text of declarations: every value in full, a comma behind
/// every value and every label, a space behind every token.
pub open spec fn canonical_text(items: Seq<ItemView>) -> Seq<char> {
    render(items_kinds(items))
}

/// The names of the values can be written.
pub open spec fn values_writable(values: Seq<ValueDefView>) -> bool {
    forall|i: int| 0 <= i < values.len() ==> is_name((#[trigger] values[i]).name)
}

/// The names in the label can be written.
pub open spec fn label_writable(label: LabelDefView) -> bool {
    match label.arm {
        LabelArmView::Values(values) => values_writable(values),
        LabelArmView::Enum(name) => is_name(name),
    }
}

/// The names in the declaration can be written.
pub open spec fn item_writable(item: ItemView) -> bool {
    match item {
        ItemView::Enum(e) => is_name(e.name) && values_writable(e.values),
        ItemView::Metric(m) => is_name(m.name) && is_name(m.metric_type) && forall|i: int|
            0 <= i < m.labels.len() ==> label_writable(#[trigger] m.labels[i]),
    }
}

/// The names in the declarations can be written: each is an identifier,
/// and neither a keyword of the input language nor a reserved word.
pub open spec fn all_writable(items: Seq<ItemView>) -> bool {
    forall|i: int| 0 <= i < items.len() ==> item_writable(#[trigger] items[i])
}

/// Every one of the kinds can be written.
pub open spec fn kinds_writable(kinds: Seq<KindView>) -> bool {
    forall|i: int| 0 <= i < kinds.len() ==> writable(#[trigger] kinds[i])
}

/// Kinds that can be written, one list behind the other, can be written.
pub proof fn lemma_kinds_writable_add(a: Seq<KindView>, b: Seq<KindView>)
    requires
        kinds_writable(a),
        kinds_writable(b),
    ensures
        kinds_writable(a + b),
{
    assert forall|i: int| 0 <= i < (a + b).len() implies writable(#[trigger] (a + b)[i]) by {
        if i < a.len() {
            assert((a + b)[i] == a[i]);
        } else {
            assert((a + b)[i] == b[i - a.len()]);
        }
    }
}

/// The tokens of values whose names can be written can be written; there are
/// four for each value.
pub proof fn lemma_values_kinds_writable(values: Seq<ValueDefView>)
    requires
        values_writable(values),
    ensures
        kinds_writable(values_kinds(values)),
        values_kinds(values).len() == 4 * values.len(),
    decreases values.len(),
{
    if values.len() > 0 {
        let rest = values.drop_first();
        assert forall|i: int| 0 <= i < rest.len() implies is_name((#[trigger] rest[i]).name) by {
            assert(rest[i] == values[i + 1]);
        }
        lemma_values_kinds_writable(rest);
        assert(is_name(values[0].name));
        lemma_kinds_writable_add(value_kinds(values[0]), values_kinds(rest));
    }
}

/// The tokens of a label whose names can be written can be written.
pub proof fn lemma_label_kinds_writable(label: LabelDefView)
    requires
        label_writable(label),
    ensures
        kinds_writable(label_kinds(label)),
{
    let head = seq![KindView::Str(label.key), KindView::FatArrow];
    match label.arm {
        LabelArmView::Values(values) => {
            lemma_values_kinds_writable(values);
            lemma_kinds_writable_add(seq![KindView::OpenBrace], values_kinds(values));
            lemma_kinds_writable_add(
                seq![KindView::OpenBrace] + values_kinds(values),
                seq![KindView::CloseBrace],
            );
        },
        LabelArmView::Enum(name) => {},
    }
    lemma_kinds_writable_add(head, arm_kinds(label.arm));
    lemma_kinds_writable_add(head + arm_kinds(label.arm), seq![KindView::Comma]);
}

/// The tokens of labels whose names can be written can be written.
pub proof fn lemma_labels_kinds_writable(labels: Seq<LabelDefView>)
    requires
        forall|i: int| 0 <= i < labels.len() ==> label_writable(#[trigger] labels[i]),
    ensures
        kinds_writable(labels_kinds(labels)),
    decreases labels.len(),
{
    if labels.len() > 0 {
        let rest = labels.drop_first();
        assert forall|i: int| 0 <= i < rest.len() implies label_writable(#[trigger] rest[i]) by {
            assert(rest[i] == labels[i + 1]);
        }
        lemma_labels_kinds_writable(rest);
        assert(label_writable(labels[0]));
        lemma_label_kinds_writable(labels[0]);
        lemma_kinds_writable_add(label_kinds(labels[0]), labels_kinds(rest));
    }
}

/// The tokens of a declaration whose names can be written can be written.
pub proof fn lemma_item_kinds_writable(item: ItemView)
    requires
        item_writable(item),
    ensures
        kinds_writable(item_kinds(item)),
{
    match item {
        ItemView::Enum(e) => {
            let head = seq![KindView::LabelEnum, KindView::Ident(e.name), KindView::OpenBrace];
            lemma_values_kinds_writable(e.values);
            lemma_kinds_writable_add(visibility_kinds(e.visibility), head);
            lemma_kinds_writable_add(visibility_kinds(e.visibility) + head, values_kinds(e.values));
            lemma_kinds_writable_add(
                visibility_kinds(e.visibility) + head + values_kinds(e.values),
                seq![KindView::CloseBrace],
            );
        },
        ItemView::Metric(m) => {
            let head = seq![
                KindView::Struct,
                KindView::Ident(m.name),
                KindView::Colon,
                KindView::Ident(m.metric_type),
                KindView::OpenBrace,
            ];
            lemma_labels_kinds_writable(m.labels);
            lemma_kinds_writable_add(visibility_kinds(m.visibility), head);
            lemma_kinds_writable_add(visibility_kinds(m.visibility) + head, labels_kinds(m.labels));
            lemma_kinds_writable_add(
                visibility_kinds(m.visibility) + head + labels_kinds(m.labels),
                seq![KindView::CloseBrace],
            );
        },
    }
}

/// The tokens of declarations whose names can be written can be written.
pub proof fn lemma_items_kinds_writable(items: Seq<ItemView>)
    requires
        all_writable(items),
    ensures
        kinds_writable(items_kinds(items)),
    decreases items.len(),
{
    if items.len() > 0 {
        let rest = items.drop_first();
        assert forall|i: int| 0 <= i < rest.len() implies item_writable(#[trigger] rest[i]) by {
            assert(rest[i] == items[i + 1]);
        }
        lemma_items_kinds_writable(rest);
        assert(item_writable(items[0]));
        lemma_item_kinds_writable(items[0]);
        lemma_kinds_writable_add(item_kinds(items[0]), items_kinds(rest));
    }
}

/// From `pos` on the tokens are of the kinds `kinds`.
pub open spec fn has_kinds(tokens: Seq<TokenView>, pos: int, kinds: Seq<KindView>) -> bool {
    &&& 0 <= pos
    &&& pos + kinds.len() <= tokens.len()
    &&& forall|i: int| 0 <= i < kinds.len() ==> tokens[pos + i].kind == #[trigger] kinds[i]
}

/// Tokens of the kinds of two lists, one behind the other, are of the kinds
/// of the first list, and behind these of the kinds of the second.
pub proof fn lemma_has_kinds_split(
    tokens: Seq<TokenView>,
    pos: int,
    a: Seq<KindView>,
    b: Seq<KindView>,
)
    requires
        has_kinds(tokens, pos, a + b),
    ensures
        has_kinds(tokens, pos, a),
        has_kinds(tokens, pos + a.len(), b),
{
    assert forall|i: int| 0 <= i < a.len() implies tokens[pos + i].kind == #[trigger] a[i] by {
        assert((a + b)[i] == a[i]);
    }
    assert forall|i: int| 0 <= i < b.len() implies tokens[pos + a.len() + i].kind
        == #[trigger] b[i] by {
        assert((a + b)[a.len() + i] == b[i]);
    }
}

/// The tokens of values in full, with the closing brace behind them, are
/// parsed as these values.
pub proof fn lemma_parse_values_of_kinds(
    tokens: Seq<TokenView>,
    pos: int,
    end: int,
    values: Seq<ValueDefView>,
    acc: Seq<ValueDefView>,
)
    requires
        has_kinds(tokens, pos, values_kinds(values) + seq![KindView::CloseBrace]),
    ensures
        parse_values(tokens, pos, end, acc) == Ok::<(Seq<ValueDefView>, int), ParseErrorView>(
            (acc + values, pos + values_kinds(values).len() + 1),
        ),
    decreases values.len(),
{
    let kinds = values_kinds(values) + seq![KindView::CloseBrace];
    if values.len() == 0 {
        assert(tokens[pos + 0].kind == kinds[0]);
        assert(acc + values =~= acc);
    } else {
        let v = values[0];
        let rest = values.drop_first();
        let tail = values_kinds(rest) + seq![KindView::CloseBrace];
        assert(kinds =~= value_kinds(v) + tail);
        lemma_has_kinds_split(tokens, pos, value_kinds(v), tail);
        assert(tokens[pos + 0].kind == value_kinds(v)[0]);
        assert(tokens[pos + 1].kind == value_kinds(v)[1]);
        assert(tokens[pos + 2].kind == value_kinds(v)[2]);
        assert(tokens[pos + 3].kind == value_kinds(v)[3]);
        lemma_parse_values_of_kinds(tokens, pos + 4, end, rest, acc.push(v));
        assert(acc.push(v) + rest =~= acc + values);
    }
}

/// The tokens of a label are parsed as this label.
pub proof fn lemma_parse_label_of_kinds(
    tokens: Seq<TokenView>,
    pos: int,
    end: int,
    label: LabelDefView,
)
    requires
        has_kinds(tokens, pos, label_kinds(label)),
    ensures
        string_at(tokens, pos) == Some(label.key),
        parse_label(tokens, pos, end, label.key) == Ok::<(LabelDefView, int), ParseErrorView>(
            (label, pos + label_kinds(label).len() - 1),
        ),
        is_at(tokens, pos + label_kinds(label).len() - 1, KindView::Comma),
{
    let head = seq![KindView::Str(label.key), KindView::FatArrow];
    let arm = arm_kinds(label.arm);
    let comma = seq![KindView::Comma];
    lemma_has_kinds_split(tokens, pos, head + arm, comma);
    lemma_has_kinds_split(tokens, pos, head, arm);
    assert(tokens[pos + 0].kind == head[0]);
    assert(tokens[pos + 1].kind == head[1]);
    assert(tokens[pos + 2 + arm.len() + 0].kind == comma[0]);
    match label.arm {
        LabelArmView::Values(values) => {
            let inner = values_kinds(values) + seq![KindView::CloseBrace];
            assert(arm =~= seq![KindView::OpenBrace] + inner);
            lemma_has_kinds_split(tokens, pos + 2, seq![KindView::OpenBrace], inner);
            assert(tokens[pos + 2 + 0].kind == seq![KindView::OpenBrace][0]);
            lemma_parse_values_of_kinds(tokens, pos + 3, end, values, Seq::empty());
            assert(Seq::<ValueDefView>::empty() + values =~= values);
        },
        LabelArmView::Enum(name) => {
            assert(tokens[pos + 2 + 0].kind == arm[0]);
        },
    }
}

/// The tokens of labels, with the closing brace behind them, are parsed as
/// these labels.
pub proof fn lemma_parse_labels_of_kinds(
    tokens: Seq<TokenView>,
    pos: int,
    end: int,
    labels: Seq<LabelDefView>,
    acc: Seq<LabelDefView>,
)
    requires
        has_kinds(tokens, pos, labels_kinds(labels) + seq![KindView::CloseBrace]),
    ensures
        parse_labels(tokens, pos, end, acc) == Ok::<(Seq<LabelDefView>, int), ParseErrorView>(
            (acc + labels, pos + labels_kinds(labels).len() + 1),
        ),
    decreases labels.len(),
{
    let kinds = labels_kinds(labels) + seq![KindView::CloseBrace];
    if labels.len() == 0 {
        assert(tokens[pos + 0].kind == kinds[0]);
        assert(acc + labels =~= acc);
    } else {
        let label = labels[0];
        let rest = labels.drop_first();
        let tail = labels_kinds(rest) + seq![KindView::CloseBrace];
        assert(kinds =~= label_kinds(label) + tail);
        lemma_has_kinds_split(tokens, pos, label_kinds(label), tail);
        lemma_parse_label_of_kinds(tokens, pos, end, label);
        assert(tokens[pos + 0].kind == label_kinds(label)[0]);
        lemma_parse_labels_of_kinds(
            tokens,
            pos + label_kinds(label).len(),
            end,
            rest,
            acc.push(label),
        );
        assert(acc.push(label) + rest =~= acc + labels);
    }
}

/// The tokens of a declaration are parsed as this declaration.
pub proof fn lemma_parse_item_of_kinds(tokens: Seq<TokenView>, pos: int, end: int, item: ItemView)
    requires
        has_kinds(tokens, pos, item_kinds(item)),
    ensures
        parse_item(tokens, pos, end) == Ok::<(ItemView, int), ParseErrorView>(
            (item, pos + item_kinds(item).len()),
        ),
{
    match item {
        ItemView::Enum(e) => {
            let vis = visibility_kinds(e.visibility);
            let head = seq![KindView::LabelEnum, KindView::Ident(e.name), KindView::OpenBrace];
            let body = values_kinds(e.values) + seq![KindView::CloseBrace];
            assert(item_kinds(item) =~= vis + (head + body));
            lemma_has_kinds_split(tokens, pos, vis, head + body);
            lemma_has_kinds_split(tokens, pos + vis.len(), head, body);
            let start = pos + vis.len();
            assert(tokens[start + 0].kind == head[0]);
            assert(tokens[start + 1].kind == head[1]);
            assert(tokens[start + 2].kind == head[2]);
            if e.visibility == Visibility::Public {
                assert(tokens[pos + 0].kind == vis[0]);
            }
            lemma_parse_values_of_kinds(tokens, start + 3, end, e.values, Seq::empty());
            assert(Seq::<ValueDefView>::empty() + e.values =~= e.values);
        },
        ItemView::Metric(m) => {
            let vis = visibility_kinds(m.visibility);
            let head = seq![
                KindView::Struct,
                KindView::Ident(m.name),
                KindView::Colon,
                KindView::Ident(m.metric_type),
                KindView::OpenBrace,
            ];
            let body = labels_kinds(m.labels) + seq![KindView::CloseBrace];
            assert(item_kinds(item) =~= vis + (head + body));
            lemma_has_kinds_split(tokens, pos, vis, head + body);
            lemma_has_kinds_split(tokens, pos + vis.len(), head, body);
            let start = pos + vis.len();
            assert(tokens[start + 0].kind == head[0]);
            assert(tokens[start + 1].kind == head[1]);
            assert(tokens[start + 2].kind == head[2]);
            assert(tokens[start + 3].kind == head[3]);
            assert(tokens[start + 4].kind == head[4]);
            if m.visibility == Visibility::Public {
                assert(tokens[pos + 0].kind == vis[0]);
            }
            lemma_parse_labels_of_kinds(tokens, start + 5, end, m.labels, Seq::empty());
            assert(Seq::<LabelDefView>::empty() + m.labels =~= m.labels);
        },
    }
}

/// The tokens of declarations, and nothing behind them, are parsed as these
/// declarations.
pub proof fn lemma_parse_items_of_kinds(
    tokens: Seq<TokenView>,
    pos: int,
    end: int,
    items: Seq<ItemView>,
    acc: Seq<ItemView>,
)
    requires
        has_kinds(tokens, pos, items_kinds(items)),
        pos + items_kinds(items).len() == tokens.len(),
    ensures
        parse_items(tokens, pos, end, acc) == Ok::<Seq<ItemView>, ParseErrorView>(acc + items),
    decreases items.len(),
{
    if items.len() == 0 {
        assert(acc + items =~= acc);
    } else {
        let item = items[0];
        let rest = items.drop_first();
        lemma_has_kinds_split(tokens, pos, item_kinds(item), items_kinds(rest));
        lemma_parse_item_of_kinds(tokens, pos, end, item);
        lemma_item_kinds_len(item);
        lemma_parse_items_of_kinds(tokens, pos + item_kinds(item).len(), end, rest, acc.push(item));
        assert(acc.push(item) + rest =~= acc + items);
    }
}

/// A declaration has tokens.
pub proof fn lemma_item_kinds_len(item: ItemView)
    ensures
        item_kinds(item).len() > 0,
{
}

/// What is parsed from the canonical text of declarations is these
/// declarations: every list of declarations whose names can be written is
/// the meaning of some text, and the parser finds it.
pub proof fn lemma_parse_of_canonical_text(items: Seq<ItemView>)
    requires
        all_writable(items),
    ensures
        parse_text(canonical_text(items)) == Ok::<Seq<ItemView>, ParseErrorView>(items),
{
    let s = canonical_text(items);
    let kinds = items_kinds(items);
    lemma_items_kinds_writable(items);
    assert(s.subrange(0, s.len() as int) =~= s);
    lemma_lex_of_render(s, 0, kinds);
    let tokens = lex(s, 0)->Ok_0;
    assert(has_kinds(tokens, 0, kinds)) by {
        assert forall|i: int| 0 <= i < kinds.len() implies tokens[0 + i].kind
            == #[trigger] kinds[i] by {
            assert(kinds_of(tokens)[i] == tokens[i].kind);
        }
    }
    lemma_parse_items_of_kinds(tokens, 0, s.len() as int, items, Seq::empty());
    assert(Seq::<ItemView>::empty() + items =~= items);
}

} // verus!
