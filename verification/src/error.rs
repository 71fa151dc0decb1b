use vstd::prelude::*;
use vstd::string::StringExecFns;
use crate::span::{Span, Spanned};
use crate::engine::TypeInfo;
use crate::typed_ast::{BinaryOperator, PrefixOperator, Type};

verus! {

/// The color tag attached to a rendered label.  Rendering (turning a report
/// tuple into terminal output) is outside this crate; a consumer maps this
/// tag onto whatever color its terminal backend uses.
#[derive(Clone, Copy, PartialEq, Eq, Structural, Debug)]
pub enum LabelColor {
    Yellow,
}

/// A diagnostic raised while checking: every failure is a value of this
/// taxonomy, never an unwound control signal.  Each variant carries the
/// spans and type snapshots it needs to render without consulting engine or
/// scope state again.
#[derive(PartialEq, Debug)]
pub enum Error {
    Typecheck(TypecheckError),
    ExpectedFound { span: Span, expected: Vec<String>, found: Option<String> },
    Custom(Span, String),
    Many(Vec<Error>),
}

/// The semantic diagnostics the checker itself produces.
#[derive(PartialEq, Debug)]
pub enum TypecheckError {
    UndefinedVariable { name: String, span: Span },
    CannotInferType { span: Span },
    TypeMismatch { span1: Span, span2: Span, ty1: TypeInfo, ty2: TypeInfo },
    CannotApplyUnaryOperator { span: Span, op: PrefixOperator, ty: Type },
    CannotApplyBinaryOperator { span: Span, op: BinaryOperator, ty1: Type, ty2: Type },
}

/// The abstract value of a semantic diagnostic: the same shape with the
/// identifier abstracted to its character sequence.
pub enum TypecheckErrorView {
    UndefinedVariable { name: Seq<char>, span: Span },
    CannotInferType { span: Span },
    TypeMismatch { span1: Span, span2: Span, ty1: TypeInfo, ty2: TypeInfo },
    CannotApplyUnaryOperator { span: Span, op: PrefixOperator, ty: Type },
    CannotApplyBinaryOperator { span: Span, op: BinaryOperator, ty1: Type, ty2: Type },
}

impl View for TypecheckError {
    type V = TypecheckErrorView;

    open spec fn view(&self) -> TypecheckErrorView {
        match self {
            TypecheckError::UndefinedVariable { name, span } => {
                TypecheckErrorView::UndefinedVariable { name: name@, span: *span }
            },
            TypecheckError::CannotInferType { span } => {
                TypecheckErrorView::CannotInferType { span: *span }
            },
            TypecheckError::TypeMismatch { span1, span2, ty1, ty2 } => {
                TypecheckErrorView::TypeMismatch {
                    span1: *span1,
                    span2: *span2,
                    ty1: *ty1,
                    ty2: *ty2,
                }
            },
            TypecheckError::CannotApplyUnaryOperator { span, op, ty } => {
                TypecheckErrorView::CannotApplyUnaryOperator { span: *span, op: *op, ty: *ty }
            },
            TypecheckError::CannotApplyBinaryOperator { span, op, ty1, ty2 } => {
                TypecheckErrorView::CannotApplyBinaryOperator {
                    span: *span,
                    op: *op,
                    ty1: *ty1,
                    ty2: *ty2,
                }
            },
        }
    }
}

impl DeepView for Span {
    type V = Span;

    open spec fn deep_view(&self) -> Span {
        *self
    }
}

impl DeepView for LabelColor {
    type V = LabelColor;

    open spec fn deep_view(&self) -> LabelColor {
        *self
    }
}

/// The headline of one rendered report.
pub type Message = String;

/// The labelled spans of one rendered report.
pub type Spans = Vec<Spanned<(String, LabelColor)>>;

/// The free-standing notes of one rendered report.
pub type Notes = Vec<String>;

/// The abstract value of one rendered report tuple.
pub type ReportView = (Seq<char>, Seq<((Seq<char>, LabelColor), Span)>, Seq<Seq<char>>);

/// The decimal digit character for `d` (0 through 9).
pub open spec fn dec_digit(d: nat) -> char {
    if d == 0 {
        '0'
    } else if d == 1 {
        '1'
    } else if d == 2 {
        '2'
    } else if d == 3 {
        '3'
    } else if d == 4 {
        '4'
    } else if d == 5 {
        '5'
    } else if d == 6 {
        '6'
    } else if d == 7 {
        '7'
    } else if d == 8 {
        '8'
    } else {
        '9'
    }
}

/// The decimal rendering of a natural number, most significant digit first.
pub open spec fn dec_of(n: nat) -> Seq<char>
    decreases n,
{
    if n < 10 {
        seq![dec_digit(n)]
    } else {
        dec_of(n / 10) + seq![dec_digit(n % 10)]
    }
}

/// The textual rendering of a provisional type description.
pub open spec fn type_info_text(t: TypeInfo) -> Seq<char> {
    match t {
        TypeInfo::Unknown => "Unknown"@,
        TypeInfo::Ref(id) => "Ref("@ + dec_of(id as nat) + ")"@,
        TypeInfo::Num => "Num"@,
    }
}

/// The textual rendering of a concrete type.
pub open spec fn type_text(t: Type) -> Seq<char> {
    match t {
        Type::Num => "Num"@,
    }
}

/// The textual rendering of a prefix operator.
pub open spec fn prefix_op_text(op: PrefixOperator) -> Seq<char> {
    match op {
        PrefixOperator::Negate => "-"@,
    }
}

/// The textual rendering of a binary operator.
pub open spec fn bin_op_text(op: BinaryOperator) -> Seq<char> {
    match op {
        BinaryOperator::Add => "+"@,
        BinaryOperator::Subtract => "-"@,
        BinaryOperator::Multiply => "*"@,
        BinaryOperator::Divide => "/"@,
    }
}

/// The comma-separated join of a list of items, in order.
pub open spec fn comma_join(items: Seq<Seq<char>>) -> Seq<char>
    decreases items.len(),
{
    if items.len() == 0 {
        Seq::empty()
    } else if items.len() == 1 {
        items[0]
    } else {
        comma_join(items.drop_last()) + ", "@ + items.last()
    }
}

/// The report tuple of one semantic diagnostic.
pub open spec fn typecheck_report(e: TypecheckError) -> ReportView {
    match e {
        TypecheckError::UndefinedVariable { name, span } => (
            "Undefined variable '"@ + name@ + "'"@,
            seq![(("not found in this scope"@, LabelColor::Yellow), span)],
            Seq::empty(),
        ),
        TypecheckError::CannotInferType { span } => (
            "Cannot infer type"@,
            seq![(("Cannot infer the type of this expression"@, LabelColor::Yellow), span)],
            seq!["help: try adding a type annotation"@],
        ),
        TypecheckError::TypeMismatch { span1, span2, ty1, ty2 } => (
            "Type mismatch"@,
            seq![
                (("Type '"@ + type_info_text(ty1) + "' here"@, LabelColor::Yellow), span1),
                (("Type '"@ + type_info_text(ty2) + "' here"@, LabelColor::Yellow), span2),
            ],
            Seq::empty(),
        ),
        TypecheckError::CannotApplyUnaryOperator { span, op, ty } => (
            "Cannot apply operator '"@ + prefix_op_text(op) + "' to type '"@ + type_text(ty)
                + "'"@,
            seq![
                (
                    ("Cannot apply this operator to type '"@ + type_text(ty) + "'"@,
                    LabelColor::Yellow),
                    span,
                ),
            ],
            Seq::empty(),
        ),
        TypecheckError::CannotApplyBinaryOperator { span, op, ty1, ty2 } => (
            "Cannot apply binary operator '"@ + bin_op_text(op) + "' to types '"@ + type_text(
                ty1,
            ) + "' and '"@ + type_text(ty2) + "'"@,
            seq![
                (
                    ("Cannot apply this operator to types '"@ + type_text(ty1) + "' and '"@
                        + type_text(ty2) + "'"@,
                    LabelColor::Yellow),
                    span,
                ),
            ],
            Seq::empty(),
        ),
    }
}

/// The headline of a parse-boundary diagnostic.
pub open spec fn expected_found_message(expected: Seq<Seq<char>>, found: Option<
    Seq<char>,
>) -> Seq<char> {
    (if found is Some {
        "Unexpected token in input"@
    } else {
        "Unexpected end of input"@
    }) + ", expected "@ + (if expected.len() == 0 {
        "something else"@
    } else {
        comma_join(expected)
    })
}

/// The ordered report tuples of a diagnostic: one tuple per leaf, an
/// aggregate flattened into its members' tuples in depth-first, left-to-right
/// order.
pub open spec fn report_of(e: Error) -> Seq<ReportView>
    decreases e,
{
    match e {
        Error::Typecheck(t) => seq![typecheck_report(t)],
        Error::ExpectedFound { span, expected, found } => seq![
            (
                expected_found_message(
                    expected.deep_view(),
                    match found {
                        Option::Some(f) => Option::Some(f@),
                        Option::None => Option::None,
                    },
                ),
                seq![
                    (
                        ("Unexpected token '"@ + (match found {
                            Option::Some(f) => f@,
                            Option::None => "eof"@,
                        }) + "'"@,
                        LabelColor::Yellow),
                        span,
                    ),
                ],
                Seq::<Seq<char>>::empty(),
            ),
        ],
        Error::Custom(span, msg) => seq![
            (
                msg@,
                seq![((Seq::<char>::empty(), LabelColor::Yellow), span)],
                Seq::<Seq<char>>::empty(),
            ),
        ],
        Error::Many(errors) => report_list(errors@),
    }
}

/// The concatenated reports of a list of diagnostics, in order.
pub open spec fn report_list(errors: Seq<Error>) -> Seq<ReportView>
    decreases errors,
{
    if errors.len() == 0 {
        Seq::empty()
    } else {
        report_list(errors.drop_last()) + report_of(errors.last())
    }
}

/// The severity code of a diagnostic; for an aggregate, the maximum code
/// among its members, and the lowest code for an empty aggregate.
pub open spec fn code_of(e: Error) -> u32
    decreases e,
{
    match e {
        Error::Typecheck(t) => match t {
            TypecheckError::UndefinedVariable { .. } => 2u32,
            TypecheckError::CannotInferType { .. } => 3u32,
            TypecheckError::TypeMismatch { .. } => 4u32,
            TypecheckError::CannotApplyUnaryOperator { .. } => 5u32,
            TypecheckError::CannotApplyBinaryOperator { .. } => 6u32,
        },
        Error::ExpectedFound { .. } => 1u32,
        Error::Custom(..) => 0u32,
        Error::Many(errors) => code_list(errors@),
    }
}

/// The maximum severity code of a list of diagnostics, 0 for an empty list.
pub open spec fn code_list(errors: Seq<Error>) -> u32
    decreases errors,
{
    if errors.len() == 0 {
        0u32
    } else {
        let rest = code_list(errors.drop_last());
        let last = code_of(errors.last());
        if last > rest {
            last
        } else {
            rest
        }
    }
}

/// Rendering an aggregate is exactly the concatenation of rendering its
/// parts: the report list of `left + right` is the report list of `left`
/// followed by the report list of `right`.
pub proof fn lemma_report_list_concat(left: Seq<Error>, right: Seq<Error>)
    ensures
        report_list(left + right) == report_list(left) + report_list(right),
    decreases right.len(),
{
    if right.len() == 0 {
        assert(left + right =~= left);
        assert(report_list(left) + report_list(right) =~= report_list(left));
    } else {
        lemma_report_list_concat(left, right.drop_last());
        assert((left + right).drop_last() =~= left + right.drop_last());
        assert((left + right).last() == right.last());
        assert(report_list(left) + (report_list(right.drop_last()) + report_of(right.last()))
            =~= (report_list(left) + report_list(right.drop_last())) + report_of(right.last()));
    }
}

/// The code of an aggregate is the maximum of its members' codes: no member
/// exceeds it, and some member attains it whenever the aggregate is
/// nonempty.  An empty aggregate has the lowest code.
pub proof fn lemma_code_list_is_max(errors: Seq<Error>)
    ensures
        forall|i: int| 0 <= i < errors.len() ==> code_of(#[trigger] errors[i]) <= code_list(errors),
        errors.len() == 0 ==> code_list(errors) == 0,
        errors.len() > 0 ==> exists|i: int|
            0 <= i < errors.len() && code_list(errors) == code_of(#[trigger] errors[i]),
    decreases errors.len(),
{
    if errors.len() > 0 {
        lemma_code_list_is_max(errors.drop_last());
        assert(forall|i: int|
            0 <= i < errors.len() - 1 ==> errors.drop_last()[i] == #[trigger] errors[i]);
        if errors.len() > 1 && code_list(errors) == code_list(errors.drop_last()) {
            let j = choose|i: int|
                0 <= i < errors.drop_last().len() && code_list(errors.drop_last()) == code_of(
                    #[trigger] errors.drop_last()[i],
                );
            assert(code_list(errors) == code_of(errors[j]));
        }
    }
}

/// The exact decimal digits of `d`, for `d` below ten.
fn digit_str(d: usize) -> (r: &'static str)
    requires
        d < 10,
    ensures
        r@ == seq![dec_digit(d as nat)],
{
    let r: &'static str = match d {
        0 => "0",
        1 => "1",
        2 => "2",
        3 => "3",
        4 => "4",
        5 => "5",
        6 => "6",
        7 => "7",
        8 => "8",
        _ => "9",
    };
    proof {
        reveal_strlit("0");
        reveal_strlit("1");
        reveal_strlit("2");
        reveal_strlit("3");
        reveal_strlit("4");
        reveal_strlit("5");
        reveal_strlit("6");
        reveal_strlit("7");
        reveal_strlit("8");
        reveal_strlit("9");
        assert(r@ =~= seq![dec_digit(d as nat)]);
    }
    r
}

/// The decimal rendering of `n`, most significant digit first.
fn dec_string(n: usize) -> (s: String)
    ensures
        s@ == dec_of(n as nat),
    decreases n,
{
    if n < 10 {
        digit_str(n).to_owned()
    } else {
        let mut s = dec_string(n / 10);
        s.append(digit_str(n % 10));
        s
    }
}

/// The textual rendering of a provisional type description.
fn type_info_name(t: &TypeInfo) -> (s: String)
    ensures
        s@ == type_info_text(*t),
{
    match t {
        TypeInfo::Unknown => "Unknown".to_owned(),
        TypeInfo::Ref(id) => {
            let mut s = "Ref(".to_owned();
            s.append(dec_string(*id).as_str());
            s.append(")");
            s
        },
        TypeInfo::Num => "Num".to_owned(),
    }
}

/// The textual rendering of a concrete type.
fn render_type(t: &Type) -> (s: String)
    ensures
        s@ == type_text(*t),
{
    match t {
        Type::Num => "Num".to_owned(),
    }
}

impl TypecheckError {
    /// The rendered report of one semantic diagnostic: its headline, its
    /// labelled spans, and its notes, built from the spans and type
    /// snapshots the diagnostic itself carries.
    pub fn make_report(&self) -> (r: (Message, Spans, Notes))
        ensures
            r.deep_view() == typecheck_report(*self),
    {
        match self {
            TypecheckError::UndefinedVariable { name, span } => {
                let mut m = "Undefined variable '".to_owned();
                m.append(name.as_str());
                m.append("'");
                let mut labels: Spans = Vec::new();
                labels.push((("not found in this scope".to_owned(), LabelColor::Yellow), *span));
                let notes: Notes = Vec::new();
                let r = (m, labels, notes);
                proof {
                    assert(r.deep_view().1 =~~= typecheck_report(*self).1);
                    assert(r.deep_view().2 =~~= typecheck_report(*self).2);
                }
                r
            },
            TypecheckError::CannotInferType { span } => {
                let m = "Cannot infer type".to_owned();
                let mut labels: Spans = Vec::new();
                labels.push((
                    ("Cannot infer the type of this expression".to_owned(), LabelColor::Yellow),
                    *span,
                ));
                let mut notes: Notes = Vec::new();
                notes.push("help: try adding a type annotation".to_owned());
                let r = (m, labels, notes);
                proof {
                    assert(r.deep_view().1 =~~= typecheck_report(*self).1);
                    assert(r.deep_view().2 =~~= typecheck_report(*self).2);
                }
                r
            },
            TypecheckError::TypeMismatch { span1, span2, ty1, ty2 } => {
                let m = "Type mismatch".to_owned();
                let mut l1 = "Type '".to_owned();
                l1.append(type_info_name(ty1).as_str());
                l1.append("' here");
                let mut l2 = "Type '".to_owned();
                l2.append(type_info_name(ty2).as_str());
                l2.append("' here");
                let mut labels: Spans = Vec::new();
                labels.push(((l1, LabelColor::Yellow), *span1));
                labels.push(((l2, LabelColor::Yellow), *span2));
                let notes: Notes = Vec::new();
                let r = (m, labels, notes);
                proof {
                    assert(r.deep_view().1 =~~= typecheck_report(*self).1);
                    assert(r.deep_view().2 =~~= typecheck_report(*self).2);
                }
                r
            },
            TypecheckError::CannotApplyUnaryOperator { span, op, ty } => {
                let op_name = match op {
                    PrefixOperator::Negate => "-",
                };
                proof {
                    assert(op_name@ == prefix_op_text(*op));
                }
                let mut m = "Cannot apply operator '".to_owned();
                m.append(op_name);
                m.append("' to type '");
                m.append(render_type(ty).as_str());
                m.append("'");
                let mut l = "Cannot apply this operator to type '".to_owned();
                l.append(render_type(ty).as_str());
                l.append("'");
                let mut labels: Spans = Vec::new();
                labels.push(((l, LabelColor::Yellow), *span));
                let notes: Notes = Vec::new();
                let r = (m, labels, notes);
                proof {
                    assert(r.deep_view().1 =~~= typecheck_report(*self).1);
                    assert(r.deep_view().2 =~~= typecheck_report(*self).2);
                }
                r
            },
            TypecheckError::CannotApplyBinaryOperator { span, op, ty1, ty2 } => {
                let op_name = match op {
                    BinaryOperator::Add => "+",
                    BinaryOperator::Subtract => "-",
                    BinaryOperator::Multiply => "*",
                    BinaryOperator::Divide => "/",
                };
                proof {
                    assert(op_name@ == bin_op_text(*op));
                }
                let mut m = "Cannot apply binary operator '".to_owned();
                m.append(op_name);
                m.append("' to types '");
                m.append(render_type(ty1).as_str());
                m.append("' and '");
                m.append(render_type(ty2).as_str());
                m.append("'");
                let mut l = "Cannot apply this operator to types '".to_owned();
                l.append(render_type(ty1).as_str());
                l.append("' and '");
                l.append(render_type(ty2).as_str());
                l.append("'");
                let mut labels: Spans = Vec::new();
                labels.push(((l, LabelColor::Yellow), *span));
                let notes: Notes = Vec::new();
                let r = (m, labels, notes);
                proof {
                    assert(r.deep_view().1 =~~= typecheck_report(*self).1);
                    assert(r.deep_view().2 =~~= typecheck_report(*self).2);
                }
                r
            },
        }
    }
}

impl Error {
    /// The rendered reports of a diagnostic, one tuple per leaf diagnostic,
    /// an aggregate flattened into its members' reports in depth-first,
    /// left-to-right order.
    pub fn make_report(&self) -> (r: Vec<(Message, Spans, Notes)>)
        ensures
            r.deep_view() == report_of(*self),
        decreases *self,
    {
        match self {
            Error::Typecheck(e) => {
                let mut out: Vec<(Message, Spans, Notes)> = Vec::new();
                out.push(e.make_report());
                proof {
                    assert(out.deep_view() =~~= report_of(*self));
                }
                out
            },
            Error::ExpectedFound { span, expected, found } => {
                let mut m = (match found {
                    Option::Some(_) => "Unexpected token in input",
                    Option::None => "Unexpected end of input",
                }).to_owned();
                m.append(", expected ");
                if expected.len() == 0 {
                    m.append("something else");
                } else {
                    let mut i: usize = 0;
                    let mut joined = String::new();
                    while i < expected.len()
                        invariant
                            0 < expected.len(),
                            i <= expected.len(),
                            i > 0 ==> joined@ == comma_join(expected.deep_view().take(i as int)),
                            i == 0 ==> joined@ == Seq::<char>::empty(),
                        decreases expected.len() - i,
                    {
                        if i > 0 {
                            joined.append(", ");
                        }
                        joined.append(expected[i].as_str());
                        proof {
                            let dv = expected.deep_view();
                            assert(dv.take(i + 1).drop_last() =~= dv.take(i as int));
                            assert(dv.take(i + 1).last() == dv[i as int]);
                            assert(dv[i as int] == expected@[i as int]@);
                        }
                        i += 1;
                    }
                    m.append(joined.as_str());
                    proof {
                        assert(expected.deep_view().take(expected@.len() as int) =~= expected
                            .deep_view());
                    }
                }
                let mut l = "Unexpected token '".to_owned();
                match found {
                    Option::Some(f) => l.append(f.as_str()),
                    Option::None => l.append("eof"),
                };
                l.append("'");
                let mut labels: Spans = Vec::new();
                labels.push(((l, LabelColor::Yellow), *span));
                let notes: Notes = Vec::new();
                let mut out: Vec<(Message, Spans, Notes)> = Vec::new();
                out.push((m, labels, notes));
                proof {
                    assert(out.deep_view() =~~= report_of(*self));
                }
                out
            },
            Error::Custom(span, msg) => {
                let mut labels: Spans = Vec::new();
                labels.push(((String::new(), LabelColor::Yellow), *span));
                let notes: Notes = Vec::new();
                let mut out: Vec<(Message, Spans, Notes)> = Vec::new();
                out.push((msg.clone(), labels, notes));
                proof {
                    assert(out.deep_view() =~~= report_of(*self));
                }
                out
            },
            Error::Many(errors) => {
                let mut out: Vec<(Message, Spans, Notes)> = Vec::new();
                let mut i: usize = 0;
                while i < errors.len()
                    invariant
                        i <= errors.len(),
                        out.deep_view() == report_list(errors@.take(i as int)),
                        forall|j: int|
                            0 <= j < errors@.len() ==> decreases_to!(*self => errors@[j]),
                    decreases errors.len() - i,
                {
                    proof {
                        assert(decreases_to!(*self => errors@[i as int]));
                    }
                    let ghost prev = out.deep_view();
                    let mut sub = errors[i].make_report();
                    out.append(&mut sub);
                    proof {
                        assert(out.deep_view() =~= prev + report_of(errors@[i as int]));
                        assert(errors@.take(i + 1).drop_last() =~= errors@.take(i as int));
                        assert(errors@.take(i + 1).last() == errors@[i as int]);
                    }
                    i += 1;
                }
                proof {
                    assert(errors@.take(errors@.len() as int) =~= errors@);
                }
                out
            },
        }
    }

    /// The severity code of a diagnostic, for exit-status purposes; for an
    /// aggregate, the maximum code among its members (0 when empty).
    pub fn code(&self) -> (r: u32)
        ensures
            r == code_of(*self),
        decreases *self,
    {
        match self {
            Error::Typecheck(e) => match e {
                TypecheckError::UndefinedVariable { .. } => 2,
                TypecheckError::CannotInferType { .. } => 3,
                TypecheckError::TypeMismatch { .. } => 4,
                TypecheckError::CannotApplyUnaryOperator { .. } => 5,
                TypecheckError::CannotApplyBinaryOperator { .. } => 6,
            },
            Error::ExpectedFound { .. } => 1,
            Error::Custom(..) => 0,
            Error::Many(errors) => {
                let mut m: u32 = 0;
                let mut i: usize = 0;
                while i < errors.len()
                    invariant
                        i <= errors.len(),
                        m == code_list(errors@.take(i as int)),
                        forall|j: int|
                            0 <= j < errors@.len() ==> decreases_to!(*self => errors@[j]),
                    decreases errors.len() - i,
                {
                    proof {
                        assert(decreases_to!(*self => errors@[i as int]));
                    }
                    let c = errors[i].code();
                    if c > m {
                        m = c;
                    }
                    proof {
                        assert(errors@.take(i + 1).drop_last() =~= errors@.take(i as int));
                        assert(errors@.take(i + 1).last() == errors@[i as int]);
                    }
                    i += 1;
                }
                proof {
                    assert(errors@.take(errors@.len() as int) =~= errors@);
                }
                m
            },
        }
    }
}

impl From<TypecheckError> for Error {
    fn from(err: TypecheckError) -> Self {
        Self::Typecheck(err)
    }
}

impl vstd::std_specs::convert::FromSpecImpl<TypecheckError> for Error {
    open spec fn obeys_from_spec() -> bool {
        true
    }

    open spec fn from_spec(err: TypecheckError) -> Error {
        Error::Typecheck(err)
    }
}

} // verus!
