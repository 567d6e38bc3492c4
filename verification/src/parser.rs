use vstd::prelude::*;
use crate::ast::{
    labels_view, values_view, EnumDefView, ItemView, LabelArmView, LabelDefView, MetricDef,
    MetricDefView, MetricEnumDef, MetricLabelArm, MetricLabelDef, MetricValueDef,
    StaticMetricMacroBody, StaticMetricMacroBodyItem, ValueDefView, Visibility,
};
use crate::ident::Ident;
use crate::lexer::{
    lex, tokenize_chars, tokens_view, Expected, KindView, ParseError, ParseErrorView, Token,
    TokenKind, TokenView,
};
use crate::text::{chars_of, lower};

verus! {

/// The error for the token at `pos`, or for the end of the input, which
/// lies at the offset `end`.
pub open spec fn error_at(tokens: Seq<TokenView>, pos: int, end: int, expected: Expected)
    -> ParseErrorView {
    if 0 <= pos < tokens.len() {
        ParseErrorView { offset: tokens[pos].offset, found: tokens[pos].text, expected }
    } else {
        ParseErrorView { offset: end, found: Seq::empty(), expected }
    }
}

/// The token at `pos` is of the kind `kind`.
pub open spec fn is_at(tokens: Seq<TokenView>, pos: int, kind: KindView) -> bool {
    0 <= pos < tokens.len() && tokens[pos].kind == kind
}

/// The name that stands at `pos`, if one does.
pub open spec fn name_at(tokens: Seq<TokenView>, pos: int) -> Option<Seq<char>> {
    if 0 <= pos < tokens.len() {
        match tokens[pos].kind {
            KindView::Ident(name) => Some(name),
            _ => None,
        }
    } else {
        None
    }
}

/// The string that stands at `pos`, if one does.
pub open spec fn string_at(tokens: Seq<TokenView>, pos: int) -> Option<Seq<char>> {
    if 0 <= pos < tokens.len() {
        match tokens[pos].kind {
            KindView::Str(value) => Some(value),
            _ => None,
        }
    } else {
        None
    }
}

/// The value named `name` at `pos`: `name: "value"`, or the bare name,
/// whose label string is the name, case-folded. With it, the position
/// behind the value.
pub open spec fn parse_value(tokens: Seq<TokenView>, pos: int, end: int, name: Seq<char>)
    -> Result<(ValueDefView, int), ParseErrorView> {
    if is_at(tokens, pos + 1, KindView::Colon) {
        match string_at(tokens, pos + 2) {
            Some(value) => Ok((ValueDefView { name, value }, pos + 3)),
            None => Err(error_at(tokens, pos + 2, end, Expected::String)),
        }
    } else {
        Ok((ValueDefView { name, value: lower(name) }, pos + 1))
    }
}

/// The values from `pos` to the closing brace, behind the values `acc`:
/// values separated by commas, the last of which a comma may follow. With
/// them, the position behind the brace.
pub open spec fn parse_values(tokens: Seq<TokenView>, pos: int, end: int, acc: Seq<ValueDefView>)
    -> Result<(Seq<ValueDefView>, int), ParseErrorView>
    decreases tokens.len() - pos,
{
    if pos < 0 {
        Err(error_at(tokens, pos, end, Expected::ValueOrClose))
    } else if is_at(tokens, pos, KindView::CloseBrace) {
        Ok((acc, pos + 1))
    } else {
        match name_at(tokens, pos) {
            None => Err(error_at(tokens, pos, end, Expected::ValueOrClose)),
            Some(name) => match parse_value(tokens, pos, end, name) {
                Err(e) => Err(e),
                Ok((value, next)) => if is_at(tokens, next, KindView::Comma) {
                    parse_values(tokens, next + 1, end, acc.push(value))
                } else if is_at(tokens, next, KindView::CloseBrace) {
                    Ok((acc.push(value), next + 1))
                } else {
                    Err(error_at(tokens, next, end, Expected::CommaOrClose))
                },
            },
        }
    }
}

/// The label with the key `key` at `pos`: the key, `=>`, and the values in
/// braces or the name of a `label_enum`. With it, the position behind the
/// label.
pub open spec fn parse_label(tokens: Seq<TokenView>, pos: int, end: int, key: Seq<char>)
    -> Result<(LabelDefView, int), ParseErrorView> {
    if !is_at(tokens, pos + 1, KindView::FatArrow) {
        Err(error_at(tokens, pos + 1, end, Expected::FatArrow))
    } else if is_at(tokens, pos + 2, KindView::OpenBrace) {
        match parse_values(tokens, pos + 3, end, Seq::empty()) {
            Err(e) => Err(e),
            Ok((values, next)) => Ok((LabelDefView { key, arm: LabelArmView::Values(values) }, next)),
        }
    } else {
        match name_at(tokens, pos + 2) {
            Some(name) => Ok((LabelDefView { key, arm: LabelArmView::Enum(name) }, pos + 3)),
            None => Err(error_at(tokens, pos + 2, end, Expected::Values)),
        }
    }
}

/// Parsing values ends behind where it starts.
pub proof fn lemma_parse_values_advances(
    tokens: Seq<TokenView>,
    pos: int,
    end: int,
    acc: Seq<ValueDefView>,
)
    ensures
        parse_values(tokens, pos, end, acc) matches Ok((_, next)) ==> pos < next <= tokens.len(),
    decreases tokens.len() - pos,
{
    if pos >= 0 && !is_at(tokens, pos, KindView::CloseBrace) {
        if let Some(name) = name_at(tokens, pos) {
            if let Ok((value, next)) = parse_value(tokens, pos, end, name) {
                if is_at(tokens, next, KindView::Comma) {
                    lemma_parse_values_advances(tokens, next + 1, end, acc.push(value));
                }
            }
        }
    }
}

/// The labels from `pos` to the closing brace, behind the labels `acc`:
/// labels separated by commas, the last of which a comma may follow. With
/// them, the position behind the brace.
pub open spec fn parse_labels(tokens: Seq<TokenView>, pos: int, end: int, acc: Seq<LabelDefView>)
    -> Result<(Seq<LabelDefView>, int), ParseErrorView>
    decreases tokens.len() - pos,
{
    if pos < 0 {
        Err(error_at(tokens, pos, end, Expected::LabelOrClose))
    } else if is_at(tokens, pos, KindView::CloseBrace) {
        Ok((acc, pos + 1))
    } else {
        match string_at(tokens, pos) {
            None => Err(error_at(tokens, pos, end, Expected::LabelOrClose)),
            Some(key) => match parse_label(tokens, pos, end, key) {
                Err(e) => Err(e),
                Ok((label, next)) => {
                    proof {
                        lemma_parse_values_advances(tokens, pos + 3, end, Seq::empty());
                    }
                    if is_at(tokens, next, KindView::Comma) {
                        parse_labels(tokens, next + 1, end, acc.push(label))
                    } else if is_at(tokens, next, KindView::CloseBrace) {
                        Ok((acc.push(label), next + 1))
                    } else {
                        Err(error_at(tokens, next, end, Expected::CommaOrClose))
                    }
                },
            },
        }
    }
}

/// Parsing labels ends behind where it starts.
pub proof fn lemma_parse_labels_advances(
    tokens: Seq<TokenView>,
    pos: int,
    end: int,
    acc: Seq<LabelDefView>,
)
    ensures
        parse_labels(tokens, pos, end, acc) matches Ok((_, next)) ==> pos < next <= tokens.len(),
    decreases tokens.len() - pos,
{
    if pos >= 0 && !is_at(tokens, pos, KindView::CloseBrace) {
        if let Some(key) = string_at(tokens, pos) {
            lemma_parse_values_advances(tokens, pos + 3, end, Seq::empty());
            if let Ok((label, next)) = parse_label(tokens, pos, end, key) {
                if is_at(tokens, next, KindView::Comma) {
                    lemma_parse_labels_advances(tokens, next + 1, end, acc.push(label));
                }
            }
        }
    }
}

/// The `label_enum` declaration whose keyword stands at `pos`:
/// `label_enum Name { values }`.
pub open spec fn parse_enum(tokens: Seq<TokenView>, pos: int, end: int, visibility: Visibility)
    -> Result<(ItemView, int), ParseErrorView> {
    match name_at(tokens, pos + 1) {
        None => Err(error_at(tokens, pos + 1, end, Expected::Name)),
        Some(name) => if !is_at(tokens, pos + 2, KindView::OpenBrace) {
            Err(error_at(tokens, pos + 2, end, Expected::OpenBrace))
        } else {
            match parse_values(tokens, pos + 3, end, Seq::empty()) {
                Err(e) => Err(e),
                Ok((values, next)) => Ok(
                    (ItemView::Enum(EnumDefView { visibility, name, values }), next),
                ),
            }
        },
    }
}

/// The metric declaration whose keyword stands at `pos`:
/// `struct Name: MetricType { labels }`.
pub open spec fn parse_metric(tokens: Seq<TokenView>, pos: int, end: int, visibility: Visibility)
    -> Result<(ItemView, int), ParseErrorView> {
    match name_at(tokens, pos + 1) {
        None => Err(error_at(tokens, pos + 1, end, Expected::Name)),
        Some(name) => if !is_at(tokens, pos + 2, KindView::Colon) {
            Err(error_at(tokens, pos + 2, end, Expected::Colon))
        } else {
            match name_at(tokens, pos + 3) {
                None => Err(error_at(tokens, pos + 3, end, Expected::Name)),
                Some(metric_type) => if !is_at(tokens, pos + 4, KindView::OpenBrace) {
                    Err(error_at(tokens, pos + 4, end, Expected::OpenBrace))
                } else {
                    match parse_labels(tokens, pos + 5, end, Seq::empty()) {
                        Err(e) => Err(e),
                        Ok((labels, next)) => Ok(
                            (
                                ItemView::Metric(
                                    MetricDefView { visibility, name, metric_type, labels },
                                ),
                                next,
                            ),
                        ),
                    }
                },
            }
        },
    }
}

/// The declaration at `pos`, with or without `pub` before it.
pub open spec fn parse_item(tokens: Seq<TokenView>, pos: int, end: int) -> Result<
    (ItemView, int),
    ParseErrorView,
> {
    if is_at(tokens, pos, KindView::Pub) {
        if is_at(tokens, pos + 1, KindView::LabelEnum) {
            parse_enum(tokens, pos + 1, end, Visibility::Public)
        } else if is_at(tokens, pos + 1, KindView::Struct) {
            parse_metric(tokens, pos + 1, end, Visibility::Public)
        } else {
            Err(error_at(tokens, pos + 1, end, Expected::Declaration))
        }
    } else if is_at(tokens, pos, KindView::LabelEnum) {
        parse_enum(tokens, pos, end, Visibility::Inherited)
    } else if is_at(tokens, pos, KindView::Struct) {
        parse_metric(tokens, pos, end, Visibility::Inherited)
    } else {
        Err(error_at(tokens, pos, end, Expected::Item))
    }
}

/// Parsing a declaration ends behind where it starts.
pub proof fn lemma_parse_item_advances(tokens: Seq<TokenView>, pos: int, end: int)
    requires
        0 <= pos,
    ensures
        parse_item(tokens, pos, end) matches Ok((_, next)) ==> pos < next <= tokens.len(),
{
    lemma_parse_values_advances(tokens, pos + 3, end, Seq::empty());
    lemma_parse_values_advances(tokens, pos + 4, end, Seq::empty());
    lemma_parse_labels_advances(tokens, pos + 5, end, Seq::empty());
    lemma_parse_labels_advances(tokens, pos + 6, end, Seq::empty());
}

/// The declarations from `pos` to the end of the tokens, behind the
/// declarations `acc`.
pub open spec fn parse_items(tokens: Seq<TokenView>, pos: int, end: int, acc: Seq<ItemView>)
    -> Result<Seq<ItemView>, ParseErrorView>
    decreases tokens.len() - pos,
{
    if pos < 0 || pos >= tokens.len() {
        Ok(acc)
    } else {
        match parse_item(tokens, pos, end) {
            Err(e) => Err(e),
            Ok((item, next)) => {
                proof {
                    lemma_parse_item_advances(tokens, pos, end);
                }
                parse_items(tokens, next, end, acc.push(item))
            },
        }
    }
}

/// The declarations that the text `s` holds, or the first error. Parsing
/// is all or nothing.
pub open spec fn parse_text(s: Seq<char>) -> Result<Seq<ItemView>, ParseErrorView> {
    match lex(s, 0) {
        Err(e) => Err(e),
        Ok(tokens) => parse_items(tokens, 0, s.len() as int, Seq::empty()),
    }
}

/// A parser over the tokens of one input.
pub struct Parser<'a> {
    pub tokens: &'a Vec<Token>,
    /// The offset of the end of the input.
    pub end: usize,
}

/// What the exec result of a parsing step must be, given what the grammar
/// says: the same error, or a value with the same view and the same
/// position.
pub open spec fn agrees<T: View>(
    r: Result<(T, usize), ParseError>,
    expected: Result<(T::V, int), ParseErrorView>,
) -> bool {
    match expected {
        Ok((v, next)) => r matches Ok((found, pos)) && found@ == v && pos == next,
        Err(e) => r matches Err(err) && err@ == e,
    }
}

impl<'a> Parser<'a> {
    /// The views of the tokens.
    pub open spec fn view_tokens(&self) -> Seq<TokenView> {
        tokens_view(self.tokens@)
    }

    /// The position `k` behind `pos`; or, where the machine cannot number
    /// it, the end of the tokens, before which it cannot lie.
    fn ahead(&self, pos: usize, k: usize) -> (r: usize)
        ensures
            self.tokens@.len() <= usize::MAX,
            r == pos + k || (r >= self.tokens@.len() && pos + k >= self.tokens@.len()),
    {
        let n = self.tokens.len();
        match pos.checked_add(k) {
            Some(next) => next,
            None => n,
        }
    }

    /// The error for the token at `pos`, or for the end of the input.
    fn error(&self, pos: usize, expected: Expected) -> (r: ParseError)
        ensures
            r@ == error_at(self.view_tokens(), pos as int, self.end as int, expected),
    {
        if pos < self.tokens.len() {
            let t = &self.tokens[pos];
            ParseError { offset: t.offset, found: t.text.clone(), expected }
        } else {
            ParseError { offset: self.end, found: String::new(), expected }
        }
    }

    /// Whether `}` stands at `pos`.
    fn at_close_brace(&self, pos: usize) -> (r: bool)
        ensures
            r == is_at(self.view_tokens(), pos as int, KindView::CloseBrace),
    {
        pos < self.tokens.len() && matches!(self.tokens[pos].kind, TokenKind::CloseBrace)
    }

    /// Whether `{` stands at `pos`.
    fn at_open_brace(&self, pos: usize) -> (r: bool)
        ensures
            r == is_at(self.view_tokens(), pos as int, KindView::OpenBrace),
    {
        pos < self.tokens.len() && matches!(self.tokens[pos].kind, TokenKind::OpenBrace)
    }

    /// Whether `,` stands at `pos`.
    fn at_comma(&self, pos: usize) -> (r: bool)
        ensures
            r == is_at(self.view_tokens(), pos as int, KindView::Comma),
    {
        pos < self.tokens.len() && matches!(self.tokens[pos].kind, TokenKind::Comma)
    }

    /// Whether `:` stands at `pos`.
    fn at_colon(&self, pos: usize) -> (r: bool)
        ensures
            r == is_at(self.view_tokens(), pos as int, KindView::Colon),
    {
        pos < self.tokens.len() && matches!(self.tokens[pos].kind, TokenKind::Colon)
    }

    /// Whether `=>` stands at `pos`.
    fn at_fat_arrow(&self, pos: usize) -> (r: bool)
        ensures
            r == is_at(self.view_tokens(), pos as int, KindView::FatArrow),
    {
        pos < self.tokens.len() && matches!(self.tokens[pos].kind, TokenKind::FatArrow)
    }

    /// Whether `pub` stands at `pos`.
    fn at_pub(&self, pos: usize) -> (r: bool)
        ensures
            r == is_at(self.view_tokens(), pos as int, KindView::Pub),
    {
        pos < self.tokens.len() && matches!(self.tokens[pos].kind, TokenKind::Pub)
    }

    /// Whether `struct` stands at `pos`.
    fn at_struct(&self, pos: usize) -> (r: bool)
        ensures
            r == is_at(self.view_tokens(), pos as int, KindView::Struct),
    {
        pos < self.tokens.len() && matches!(self.tokens[pos].kind, TokenKind::Struct)
    }

    /// Whether `label_enum` stands at `pos`.
    fn at_label_enum(&self, pos: usize) -> (r: bool)
        ensures
            r == is_at(self.view_tokens(), pos as int, KindView::LabelEnum),
    {
        pos < self.tokens.len() && matches!(self.tokens[pos].kind, TokenKind::LabelEnum)
    }

    /// The name that stands at `pos`, if one does.
    fn name(&self, pos: usize) -> (r: Option<Ident>)
        ensures
            match name_at(self.view_tokens(), pos as int) {
                Some(name) => r matches Some(id) && id@ == name,
                None => r is None,
            },
    {
        if pos < self.tokens.len() {
            match &self.tokens[pos].kind {
                TokenKind::Ident(name) => Some(name.clone()),
                _ => None,
            }
        } else {
            None
        }
    }

    /// The string that stands at `pos`, if one does.
    fn string(&self, pos: usize) -> (r: Option<String>)
        ensures
            match string_at(self.view_tokens(), pos as int) {
                Some(value) => r matches Some(s) && s@ == value,
                None => r is None,
            },
    {
        if pos < self.tokens.len() {
            match &self.tokens[pos].kind {
                TokenKind::Str(value) => Some(value.clone()),
                _ => None,
            }
        } else {
            None
        }
    }

    /// Reads the value named `name` at `pos`.
    fn parse_value(&self, pos: usize, name: Ident) -> (r: Result<(MetricValueDef, usize), ParseError>)
        requires
            pos < self.tokens@.len(),
        ensures
            agrees(r, parse_value(self.view_tokens(), pos as int, self.end as int, name@)),
    {
        if self.at_colon(self.ahead(pos, 1)) {
            match self.string(self.ahead(pos, 2)) {
                Some(value) => Ok((MetricValueDef::full(name, value), pos + 3)),
                None => Err(self.error(self.ahead(pos, 2), Expected::String)),
            }
        } else {
            Ok((MetricValueDef::short(name), pos + 1))
        }
    }

    /// Reads values from `start` to the closing brace.
    fn parse_values(&self, start: usize) -> (r: Result<(Vec<MetricValueDef>, usize), ParseError>)
        requires
            start <= self.tokens@.len(),
        ensures
            match parse_values(self.view_tokens(), start as int, self.end as int, Seq::empty()) {
                Ok((values, next)) => r matches Ok((found, pos)) && values_view(found@) == values
                    && pos == next && pos <= self.tokens@.len(),
                Err(e) => r matches Err(err) && err@ == e,
            },
    {
        let ghost tokens = self.view_tokens();
        let ghost end = self.end as int;
        let mut values: Vec<MetricValueDef> = Vec::new();
        let n = self.tokens.len();
        let mut pos: usize = start;
        assert(values_view(values@) =~= Seq::empty());
        loop
            invariant
                n == self.tokens@.len(),
                tokens == self.view_tokens(),
                end == self.end as int,
                pos <= self.tokens@.len(),
                parse_values(tokens, start as int, end, Seq::empty()) == parse_values(
                    tokens,
                    pos as int,
                    end,
                    values_view(values@),
                ),
            decreases self.tokens@.len() - pos,
        {
            if self.at_close_brace(pos) {
                return Ok((values, pos + 1));
            }
            let name = match self.name(pos) {
                None => {
                    return Err(self.error(pos, Expected::ValueOrClose));
                },
                Some(name) => name,
            };
            let (value, next) = match self.parse_value(pos, name) {
                Err(e) => {
                    return Err(e);
                },
                Ok(parsed) => parsed,
            };
            proof {
                assert(values_view(values@.push(value)) =~= values_view(values@).push(value@));
            }
            values.push(value);
            if self.at_comma(next) {
                pos = next + 1;
            } else if self.at_close_brace(next) {
                return Ok((values, next + 1));
            } else {
                return Err(self.error(next, Expected::CommaOrClose));
            }
        }
    }

    /// Reads the label with the key `key` at `pos`.
    fn parse_label(&self, pos: usize, key: String) -> (r: Result<(MetricLabelDef, usize), ParseError>)
        requires
            pos < self.tokens@.len(),
        ensures
            agrees(r, parse_label(self.view_tokens(), pos as int, self.end as int, key@)),
            r matches Ok((_, next)) ==> pos < next <= self.tokens@.len(),
    {
        if !self.at_fat_arrow(self.ahead(pos, 1)) {
            return Err(self.error(self.ahead(pos, 1), Expected::FatArrow));
        }
        if self.at_open_brace(self.ahead(pos, 2)) {
            match self.parse_values(pos + 3) {
                Err(e) => Err(e),
                Ok((values, next)) => {
                    proof {
                        lemma_parse_values_advances(
                            self.view_tokens(),
                            pos + 3,
                            self.end as int,
                            Seq::empty(),
                        );
                    }
                    Ok(
                        (
                            MetricLabelDef {
                                label_key: key,
                                arm: MetricLabelArm::ValueDefinitionList(values),
                            },
                            next,
                        ),
                    )
                },
            }
        } else {
            match self.name(self.ahead(pos, 2)) {
                Some(name) => Ok(
                    (MetricLabelDef { label_key: key, arm: MetricLabelArm::EnumReference(name) }, pos + 3),
                ),
                None => Err(self.error(self.ahead(pos, 2), Expected::Values)),
            }
        }
    }

    /// Reads labels from `start` to the closing brace.
    fn parse_labels(&self, start: usize) -> (r: Result<(Vec<MetricLabelDef>, usize), ParseError>)
        requires
            start <= self.tokens@.len(),
        ensures
            match parse_labels(self.view_tokens(), start as int, self.end as int, Seq::empty()) {
                Ok((labels, next)) => r matches Ok((found, pos)) && labels_view(found@) == labels
                    && pos == next && pos <= self.tokens@.len(),
                Err(e) => r matches Err(err) && err@ == e,
            },
    {
        let ghost tokens = self.view_tokens();
        let ghost end = self.end as int;
        let mut labels: Vec<MetricLabelDef> = Vec::new();
        let n = self.tokens.len();
        let mut pos: usize = start;
        assert(labels_view(labels@) =~= Seq::empty());
        loop
            invariant
                n == self.tokens@.len(),
                tokens == self.view_tokens(),
                end == self.end as int,
                pos <= self.tokens@.len(),
                parse_labels(tokens, start as int, end, Seq::empty()) == parse_labels(
                    tokens,
                    pos as int,
                    end,
                    labels_view(labels@),
                ),
            decreases self.tokens@.len() - pos,
        {
            if self.at_close_brace(pos) {
                return Ok((labels, pos + 1));
            }
            let key = match self.string(pos) {
                None => {
                    return Err(self.error(pos, Expected::LabelOrClose));
                },
                Some(key) => key,
            };
            let (label, next) = match self.parse_label(pos, key) {
                Err(e) => {
                    return Err(e);
                },
                Ok(parsed) => parsed,
            };
            proof {
                assert(labels_view(labels@.push(label)) =~= labels_view(labels@).push(label@));
            }
            labels.push(label);
            if self.at_comma(next) {
                pos = next + 1;
            } else if self.at_close_brace(next) {
                return Ok((labels, next + 1));
            } else {
                return Err(self.error(next, Expected::CommaOrClose));
            }
        }
    }

    /// Reads the `label_enum` declaration whose keyword stands at `pos`.
    fn parse_enum(&self, pos: usize, visibility: Visibility) -> (r: Result<
        (StaticMetricMacroBodyItem, usize),
        ParseError,
    >)
        requires
            pos < self.tokens@.len(),
        ensures
            agrees(r, parse_enum(self.view_tokens(), pos as int, self.end as int, visibility)),
            r matches Ok((_, next)) ==> pos < next <= self.tokens@.len(),
    {
        let enum_name = match self.name(self.ahead(pos, 1)) {
            None => {
                return Err(self.error(self.ahead(pos, 1), Expected::Name));
            },
            Some(name) => name,
        };
        if !self.at_open_brace(self.ahead(pos, 2)) {
            return Err(self.error(self.ahead(pos, 2), Expected::OpenBrace));
        }
        match self.parse_values(pos + 3) {
            Err(e) => Err(e),
            Ok((definitions, next)) => {
                proof {
                    lemma_parse_values_advances(
                        self.view_tokens(),
                        pos + 3,
                        self.end as int,
                        Seq::empty(),
                    );
                }
                Ok(
                    (
                        StaticMetricMacroBodyItem::Enum(
                            MetricEnumDef { visibility, enum_name, definitions },
                        ),
                        next,
                    ),
                )
            },
        }
    }

    /// Reads the metric declaration whose keyword stands at `pos`.
    fn parse_metric(&self, pos: usize, visibility: Visibility) -> (r: Result<
        (StaticMetricMacroBodyItem, usize),
        ParseError,
    >)
        requires
            pos < self.tokens@.len(),
        ensures
            agrees(r, parse_metric(self.view_tokens(), pos as int, self.end as int, visibility)),
            r matches Ok((_, next)) ==> pos < next <= self.tokens@.len(),
    {
        let struct_name = match self.name(self.ahead(pos, 1)) {
            None => {
                return Err(self.error(self.ahead(pos, 1), Expected::Name));
            },
            Some(name) => name,
        };
        if !self.at_colon(self.ahead(pos, 2)) {
            return Err(self.error(self.ahead(pos, 2), Expected::Colon));
        }
        let metric_type = match self.name(self.ahead(pos, 3)) {
            None => {
                return Err(self.error(self.ahead(pos, 3), Expected::Name));
            },
            Some(name) => name,
        };
        if !self.at_open_brace(self.ahead(pos, 4)) {
            return Err(self.error(self.ahead(pos, 4), Expected::OpenBrace));
        }
        match self.parse_labels(pos + 5) {
            Err(e) => Err(e),
            Ok((labels, next)) => {
                proof {
                    lemma_parse_labels_advances(
                        self.view_tokens(),
                        pos + 5,
                        self.end as int,
                        Seq::empty(),
                    );
                }
                Ok(
                    (
                        StaticMetricMacroBodyItem::Metric(
                            MetricDef { visibility, struct_name, metric_type, labels },
                        ),
                        next,
                    ),
                )
            },
        }
    }

    /// Reads the declaration at `pos`.
    fn parse_item(&self, pos: usize) -> (r: Result<(StaticMetricMacroBodyItem, usize), ParseError>)
        requires
            pos < self.tokens@.len(),
        ensures
            agrees(r, parse_item(self.view_tokens(), pos as int, self.end as int)),
            r matches Ok((_, next)) ==> pos < next <= self.tokens@.len(),
    {
        if self.at_pub(pos) {
            if self.at_label_enum(self.ahead(pos, 1)) {
                self.parse_enum(pos + 1, Visibility::Public)
            } else if self.at_struct(self.ahead(pos, 1)) {
                self.parse_metric(pos + 1, Visibility::Public)
            } else {
                Err(self.error(self.ahead(pos, 1), Expected::Declaration))
            }
        } else if self.at_label_enum(pos) {
            self.parse_enum(pos, Visibility::Inherited)
        } else if self.at_struct(pos) {
            self.parse_metric(pos, Visibility::Inherited)
        } else {
            Err(self.error(pos, Expected::Item))
        }
    }

    /// The declarations that the tokens hold, or the first error.
    pub fn parse_items(&self) -> (r: Result<StaticMetricMacroBody, ParseError>)
        requires
        ensures
            match parse_items(self.view_tokens(), 0, self.end as int, Seq::empty()) {
                Ok(items) => r matches Ok(body) && body@ == items,
                Err(e) => r matches Err(err) && err@ == e,
            },
    {
        let ghost tokens = self.view_tokens();
        let ghost end = self.end as int;
        let n = self.tokens.len();
        let mut items: Vec<StaticMetricMacroBodyItem> = Vec::new();
        let mut pos: usize = 0;
        let ghost mut acc: Seq<ItemView> = Seq::empty();
        while pos < n
            invariant
                tokens == self.view_tokens(),
                end == self.end as int,
                n == self.tokens@.len(),
                pos <= n,
                acc =~= Seq::new(items@.len(), |i: int| items@[i]@),
                parse_items(tokens, 0, end, Seq::empty()) == parse_items(
                    tokens,
                    pos as int,
                    end,
                    acc,
                ),
            decreases n - pos,
        {
            match self.parse_item(pos) {
                Err(e) => {
                    return Err(e);
                },
                Ok((item, next)) => {
                    proof {
                        acc = acc.push(item@);
                    }
                    items.push(item);
                    pos = next;
                },
            }
        }
        let body = StaticMetricMacroBody { items };
        assert(body@ =~= acc);
        Ok(body)
    }
}

/// Parses the text of the input language.
pub fn parse(input: &str) -> (r: Result<StaticMetricMacroBody, ParseError>)
    ensures
        match parse_text(input@) {
            Ok(items) => r matches Ok(body) && body@ == items,
            Err(e) => r matches Err(err) && err@ == e,
        },
{
    let s = chars_of(input);
    let tokens = match tokenize_chars(&s) {
        Err(e) => {
            return Err(e);
        },
        Ok(tokens) => tokens,
    };
    let parser = Parser { tokens: &tokens, end: s.len() };
    parser.parse_items()
}

} // verus!
