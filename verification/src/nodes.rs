//! The abstract syntax tree the parser builds: a tree of unary and binary
//! operations over atoms (literals, constant references, function calls).

use vstd::prelude::*;

verus! {

broadcast use vstd::seq::axiom_seq_index_decreases, vstd::seq::axiom_seq_subrange_decreases, vstd::std_specs::vec::axiom_vec_decreases_to_view;

/// A prefix operator.
#[derive(Debug, Clone, Copy, PartialEq, Eq, Structural)]
pub enum UnOp {
    Pos,
    Neg,
    Not,
}

/// An infix operator.
#[derive(Debug, Clone, Copy, PartialEq, Eq, Structural)]
pub enum BinOp {
    Plus,
    Minus,
    Mul,
    Div,
    Mod,
    Pow,
    And,
    Or,
    Xor,
}

/// An expression: a tree whose leaves are atoms.
#[derive(Debug, PartialEq)]
pub enum Expr {
    UnOp(UnOp, Box<Expr>),
    BinOp(BinOp, Box<Expr>, Box<Expr>),
    Atom(Atom),
}

/// A primary expression: a literal, a named constant reference, or a call
/// of a named function on ordered argument expressions. Names are raw
/// text; they are resolved only at evaluation time.
#[derive(Debug, PartialEq)]
pub enum Atom {
    Int(i64),
    Float(u64),
    Const(String),
    Func(String, Vec<Expr>),
}

/// The mathematical shape of an expression: names as character sequences,
/// argument lists as sequences.
pub enum ExprView {
    UnOp(UnOp, Box<ExprView>),
    BinOp(BinOp, Box<ExprView>, Box<ExprView>),
    Atom(AtomView),
}

/// The mathematical shape of an atom.
pub enum AtomView {
    Int(i64),
    Float(u64),
    Const(Seq<char>),
    Func(Seq<char>, Seq<ExprView>),
}

/// The view of an expression tree.
pub open spec fn expr_view(e: Expr) -> ExprView
    decreases e,
{
    match e {
        Expr::UnOp(op, inner) => ExprView::UnOp(op, Box::new(expr_view(*inner))),
        Expr::BinOp(op, lhs, rhs) => ExprView::BinOp(
            op,
            Box::new(expr_view(*lhs)),
            Box::new(expr_view(*rhs)),
        ),
        Expr::Atom(a) => ExprView::Atom(atom_view(a)),
    }
}

/// The view of an atom; a function call's arguments are viewed pointwise.
pub open spec fn atom_view(a: Atom) -> AtomView
    decreases a,
{
    match a {
        Atom::Int(i) => AtomView::Int(i),
        Atom::Float(b) => AtomView::Float(b),
        Atom::Const(name) => AtomView::Const(name@),
        Atom::Func(name, args) => AtomView::Func(name@, exprs_view(args)),
    }
}

/// The views of a list of argument expressions, pointwise.
pub open spec fn exprs_view(args: Vec<Expr>) -> Seq<ExprView>
    decreases args,
{
    exprs_view_seq(args@)
}

/// The views of a sequence of expressions, pointwise.
pub open spec fn exprs_view_seq(args: Seq<Expr>) -> Seq<ExprView>
    decreases args,
{
    if args.len() == 0 {
        Seq::empty()
    } else {
        exprs_view_seq(args.drop_last()).push(expr_view(args.last()))
    }
}

/// `exprs_view_seq` is the pointwise view.
pub proof fn lemma_exprs_view_seq(args: Seq<Expr>)
    ensures
        exprs_view_seq(args).len() == args.len(),
        forall|i: int|
            0 <= i < args.len() ==> #[trigger] exprs_view_seq(args)[i] == expr_view(args[i]),
    decreases args.len(),
{
    if args.len() > 0 {
        lemma_exprs_view_seq(args.drop_last());
    }
}

impl View for Expr {
    type V = ExprView;

    open spec fn view(&self) -> ExprView {
        expr_view(*self)
    }
}

impl View for Atom {
    type V = AtomView;

    open spec fn view(&self) -> AtomView {
        atom_view(*self)
    }
}

/// The text of a prefix operator.
pub open spec fn spec_render_unop(op: UnOp) -> Seq<char> {
    match op {
        UnOp::Pos => "+"@,
        UnOp::Neg => "-"@,
        UnOp::Not => "~"@,
    }
}

/// The text of an infix operator.
pub open spec fn spec_render_binop(op: BinOp) -> Seq<char> {
    match op {
        BinOp::Plus => "+"@,
        BinOp::Minus => "-"@,
        BinOp::Mul => "*"@,
        BinOp::Div => "/"@,
        BinOp::Mod => "%"@,
        BinOp::Pow => "**"@,
        BinOp::And => "&"@,
        BinOp::Or => "|"@,
        BinOp::Xor => "^"@,
    }
}

/// The text of a decimal digit.
pub open spec fn spec_digit_text(d: int) -> Seq<char> {
    if d == 0 {
        "0"@
    } else if d == 1 {
        "1"@
    } else if d == 2 {
        "2"@
    } else if d == 3 {
        "3"@
    } else if d == 4 {
        "4"@
    } else if d == 5 {
        "5"@
    } else if d == 6 {
        "6"@
    } else if d == 7 {
        "7"@
    } else if d == 8 {
        "8"@
    } else {
        "9"@
    }
}

/// The decimal text of a non-negative integer.
pub open spec fn spec_udec_text(n: int) -> Seq<char>
    decreases n when n >= 0
{
    if n < 10 {
        spec_digit_text(n)
    } else {
        spec_udec_text(n / 10) + spec_digit_text(n % 10)
    }
}

/// The decimal text of a signed integer.
pub open spec fn spec_int_text(i: i64) -> Seq<char> {
    if i >= 0 {
        spec_udec_text(i as int)
    } else {
        "-"@ + spec_udec_text(-(i as int))
    }
}

/// The infix rendering of an expression: every compound form is
/// parenthesized, so the text re-parses to the same tree shape.
pub open spec fn spec_render_expr(e: ExprView) -> Seq<char>
    decreases e,
{
    match e {
        ExprView::UnOp(op, inner) => "("@ + spec_render_unop(op) + spec_render_expr(*inner) + ")"@,
        ExprView::BinOp(op, lhs, rhs) => "("@ + spec_render_expr(*lhs) + " "@ + spec_render_binop(
            op,
        ) + " "@ + spec_render_expr(*rhs) + ")"@,
        ExprView::Atom(a) => spec_render_atom(a),
    }
}

/// The rendering of an atom: literals as their texts (a double through
/// std's Debug formatting, which keeps float syntax), a constant reference
/// as its name, a call as its name over its comma-separated arguments.
pub open spec fn spec_render_atom(a: AtomView) -> Seq<char>
    decreases a,
{
    match a {
        AtomView::Int(i) => spec_int_text(i),
        AtomView::Float(b) => crate::fbits::text_of_bits(b),
        AtomView::Const(name) => name,
        AtomView::Func(name, args) => name + "("@ + spec_render_args(args) + ")"@,
    }
}

/// The comma-separated rendering of an argument list.
pub open spec fn spec_render_args(args: Seq<ExprView>) -> Seq<char>
    decreases args,
{
    if args.len() == 0 {
        Seq::empty()
    } else if args.len() == 1 {
        spec_render_expr(args[0])
    } else {
        spec_render_args(args.drop_last()) + ", "@ + spec_render_expr(args.last())
    }
}

/// The text of a digit is one character, a decimal digit, whose value is
/// the digit; the zero digit alone starts with the zero character.
pub proof fn lemma_digit_text(d: int)
    requires
        0 <= d <= 9,
    ensures
        spec_digit_text(d).len() == 1,
        crate::lexer::is_dec_digit(spec_digit_text(d)[0]),
        spec_digit_text(d)[0] as u32 == 48 + d,
{
    reveal_strlit("0");
    reveal_strlit("1");
    reveal_strlit("2");
    reveal_strlit("3");
    reveal_strlit("4");
    reveal_strlit("5");
    reveal_strlit("6");
    reveal_strlit("7");
    reveal_strlit("8");
    reveal_strlit("9");
}

/// The decimal text of a non-negative integer is a non-empty run of
/// decimal digits.
pub proof fn lemma_udec_text_digits(n: int)
    requires
        n >= 0,
    ensures
        spec_udec_text(n).len() >= 1,
        forall|j: int|
            0 <= j < spec_udec_text(n).len() ==> crate::lexer::is_dec_digit(
                #[trigger] spec_udec_text(n)[j],
            ),
    decreases n,
{
    if n < 10 {
        lemma_digit_text(n);
    } else {
        lemma_udec_text_digits(n / 10);
        lemma_digit_text(n % 10);
    }
}

fn digit_text(d: u64) -> (r: &'static str)
    requires
        d < 10,
    ensures
        r@ == spec_digit_text(d as int),
{
    if d == 0 {
        "0"
    } else if d == 1 {
        "1"
    } else if d == 2 {
        "2"
    } else if d == 3 {
        "3"
    } else if d == 4 {
        "4"
    } else if d == 5 {
        "5"
    } else if d == 6 {
        "6"
    } else if d == 7 {
        "7"
    } else if d == 8 {
        "8"
    } else {
        "9"
    }
}

/// The decimal text of an unsigned integer.
fn udec_text(n: u64) -> (r: String)
    ensures
        r@ == spec_udec_text(n as int),
    decreases n,
{
    if n < 10 {
        digit_text(n).to_owned()
    } else {
        let mut s = udec_text(n / 10);
        s.append(digit_text(n % 10));
        s
    }
}

/// The decimal text of a signed integer.
pub fn int_text(i: i64) -> (r: String)
    ensures
        r@ == spec_int_text(i),
{
    if i >= 0 {
        udec_text(i as u64)
    } else {
        let m: u64 = if i == i64::MIN {
            0x8000_0000_0000_0000u64
        } else {
            (0i64 - i) as u64
        };
        proof {
            assert(m == -(i as int));
        }
        let mut s = "-".to_owned();
        s.append(udec_text(m).as_str());
        s
    }
}

impl UnOp {
    /// The operator's text.
    pub fn render(&self) -> (r: &'static str)
        ensures
            r@ == spec_render_unop(*self),
    {
        match *self {
            UnOp::Pos => "+",
            UnOp::Neg => "-",
            UnOp::Not => "~",
        }
    }
}

impl BinOp {
    /// The operator's text.
    pub fn render(&self) -> (r: &'static str)
        ensures
            r@ == spec_render_binop(*self),
    {
        match *self {
            BinOp::Plus => "+",
            BinOp::Minus => "-",
            BinOp::Mul => "*",
            BinOp::Div => "/",
            BinOp::Mod => "%",
            BinOp::Pow => "**",
            BinOp::And => "&",
            BinOp::Or => "|",
            BinOp::Xor => "^",
        }
    }
}

impl Expr {
    /// Render the expression back to infix text; compound forms come out
    /// parenthesized, so the text re-parses to the same tree shape.
    pub fn render(&self) -> (r: String)
        ensures
            r@ == spec_render_expr(expr_view(*self)),
        decreases *self,
    {
        match self {
            Expr::UnOp(op, inner) => {
                let mut s = "(".to_owned();
                s.append(op.render());
                s.append(inner.render().as_str());
                s.append(")");
                s
            },
            Expr::BinOp(op, lhs, rhs) => {
                let mut s = "(".to_owned();
                s.append(lhs.render().as_str());
                s.append(" ");
                s.append(op.render());
                s.append(" ");
                s.append(rhs.render().as_str());
                s.append(")");
                s
            },
            Expr::Atom(a) => a.render(),
        }
    }
}

impl Atom {
    /// Render the atom back to text.
    pub fn render(&self) -> (r: String)
        ensures
            r@ == spec_render_atom(atom_view(*self)),
        decreases *self,
    {
        match self {
            Atom::Int(i) => int_text(*i),
            Atom::Float(b) => crate::fbits::render_float(*b),
            Atom::Const(name) => name.clone(),
            Atom::Func(name, args) => {
                let mut s = name.clone();
                s.append("(");
                s.append(render_args(args).as_str());
                s.append(")");
                s
            },
        }
    }
}

/// Render an argument list, comma-separated.
fn render_args(args: &Vec<Expr>) -> (r: String)
    ensures
        r@ == spec_render_args(exprs_view_seq(args@)),
    decreases *args,
{
    let ghost av = exprs_view_seq(args@);
    proof {
        lemma_exprs_view_seq(args@);
    }
    let mut s = String::new();
    let mut i: usize = 0;
    while i < args.len()
        invariant
            0 <= i <= args@.len(),
            av == exprs_view_seq(args@),
            av.len() == args@.len(),
            forall|j: int| 0 <= j < args@.len() ==> #[trigger] av[j] == expr_view(args@[j]),
            s@ == spec_render_args(av.subrange(0, i as int)),
        decreases args@.len() - i,
    {
        proof {
            assert(av.subrange(0, i + 1).drop_last() =~= av.subrange(0, i as int));
            assert(av.subrange(0, i + 1).last() == av[i as int]);
            if i == 0 {
                assert(av.subrange(0, 1)[0] == av[0]);
            }
        }
        if i > 0 {
            s.append(", ");
        }
        s.append(args[i].render().as_str());
        i += 1;
    }
    proof {
        assert(av.subrange(0, args@.len() as int) =~= av);
    }
    s
}

} // verus!
