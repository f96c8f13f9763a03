//! Array declaration expression of the host language's syntax tree, together
//! with the minimal expression shapes its queries and rendering need.

use vstd::prelude::*;
use vstd::string::*;
use crate::parser::spec_digit_char;

verus! {

/// The syntactic symbols whose containment an expression can be queried for.
#[derive(Clone, Copy, PartialEq, Eq, Structural, Debug)]
pub enum ContainsSymbol {
    This,
    NewTarget,
}

/// A literal value.
#[derive(Debug)]
pub enum Literal {
    Int(i32),
    Text(String),
}

/// An expression node.
#[derive(Debug)]
pub enum Expression {
    /// The `this` keyword.
    This,
    /// The `new.target` meta property.
    NewTarget,
    /// A reference to a name in scope.
    Identifier(String),
    /// A literal value.
    Literal(Literal),
    /// An array literal.
    ArrayLiteral(ArrayLiteral),
}

/// An array is an ordered collection of data (either primitive or object
/// depending upon the language).
///
/// Each item in an array has a numeric index attached to it, starting at
/// zero, that allows access to it; an elision leaves an index with no item.
#[derive(Debug)]
pub struct ArrayLiteral {
    pub arr: Vec<Option<Expression>>,
    pub has_trailing_comma_spread: bool,
}

/// Decimal rendering of a non-negative value.
pub open spec fn spec_nat_text(v: int) -> Seq<char>
    recommends
        v >= 0,
    decreases v,
{
    if v < 10 {
        seq![spec_digit_char(v)]
    } else {
        spec_nat_text(v / 10) + seq![spec_digit_char(v % 10)]
    }
}

/// Decimal rendering of an integer, minus-signed when negative.
pub open spec fn spec_int_text(v: int) -> Seq<char> {
    if v < 0 {
        seq!['-'] + spec_nat_text(-v)
    } else {
        spec_nat_text(v)
    }
}

/// Textual rendering of a literal: integers in decimal, text in quotes.
pub open spec fn spec_literal_text(lit: Literal) -> Seq<char> {
    match lit {
        Literal::Int(v) => spec_int_text(v as int),
        Literal::Text(s) => seq!['"'] + s@ + seq!['"'],
    }
}

impl Expression {
    /// The expression, or one nested in it, mentions the `arguments`
    /// binding.
    pub open spec fn spec_contains_arguments(self) -> bool
        decreases self,
    {
        match self {
            Expression::Identifier(name) => name@ == "arguments"@,
            Expression::ArrayLiteral(array) => array.spec_contains_arguments(),
            _ => false,
        }
    }

    /// The expression, or one nested in it, is the given symbol.
    pub open spec fn spec_contains(self, symbol: ContainsSymbol) -> bool
        decreases self,
    {
        match self {
            Expression::This => symbol == ContainsSymbol::This,
            Expression::NewTarget => symbol == ContainsSymbol::NewTarget,
            Expression::ArrayLiteral(array) => array.spec_contains(symbol),
            _ => false,
        }
    }

    /// Textual rendering of the expression.
    pub open spec fn spec_text(self) -> Seq<char>
        decreases self,
    {
        match self {
            Expression::This => "this"@,
            Expression::NewTarget => "new.target"@,
            Expression::Identifier(name) => name@,
            Expression::Literal(lit) => spec_literal_text(lit),
            Expression::ArrayLiteral(array) => array.spec_text(),
        }
    }
}

/// Rendering of an item list: items in order, joined by ", ", an elision
/// rendering as nothing between its separators.
pub open spec fn spec_items_text(items: Seq<Option<Expression>>) -> Seq<char>
    decreases items,
{
    if items.len() == 0 {
        Seq::<char>::empty()
    } else {
        spec_items_text(items.drop_last()) + (if items.len() > 1 {
            ", "@
        } else {
            Seq::<char>::empty()
        }) + spec_item_text(items.last())
    }
}

/// Rendering of one optional item; an elision renders as nothing.
pub open spec fn spec_item_text(item: Option<Expression>) -> Seq<char>
    decreases item,
{
    match item {
        None => Seq::<char>::empty(),
        Some(e) => e.spec_text(),
    }
}

impl ArrayLiteral {
    /// The item list, an elision standing at each index with no item.
    pub open spec fn items_view(self) -> Seq<Option<Expression>> {
        self.arr@
    }

    /// A spread item somewhere in the literal is followed by a trailing
    /// comma, which is a syntax error in some positions.
    pub open spec fn spec_has_trailing_comma_spread(self) -> bool {
        self.has_trailing_comma_spread
    }

    /// Some item of the literal mentions the `arguments` binding.
    pub open spec fn spec_contains_arguments(self) -> bool
        decreases self,
    {
        exists|i: int|
            0 <= i < self.arr@.len() && ((#[trigger] self.arr@[i]) matches Some(e)
                && e.spec_contains_arguments())
    }

    /// Some item of the literal is the given symbol.
    pub open spec fn spec_contains(self, symbol: ContainsSymbol) -> bool
        decreases self,
    {
        exists|i: int|
            0 <= i < self.arr@.len() && ((#[trigger] self.arr@[i]) matches Some(e)
                && e.spec_contains(symbol))
    }

    /// Textual rendering: the items between square brackets.
    pub open spec fn spec_text(self) -> Seq<char>
        decreases self,
    {
        seq!['['] + spec_items_text(self.arr@) + seq![']']
    }

    /// Creates a new array literal.
    pub fn new(array: Vec<Option<Expression>>, has_trailing_comma_spread: bool) -> (r:
        ArrayLiteral)
        ensures
            r.items_view() == array@,
            r.spec_has_trailing_comma_spread() == has_trailing_comma_spread,
    {
        ArrayLiteral { arr: array, has_trailing_comma_spread }
    }

    /// Indicates whether a spread operator in the array literal has a
    /// trailing comma.
    pub fn has_trailing_comma_spread(&self) -> (r: bool)
        ensures
            r == self.spec_has_trailing_comma_spread(),
    {
        self.has_trailing_comma_spread
    }
}

fn digit_text(d: u32) -> (r: String)
    requires
        d <= 9,
    ensures
        r@ == seq![spec_digit_char(d as int)],
{
    let r: String = if d == 0 {
        "0".to_owned()
    } else if d == 1 {
        "1".to_owned()
    } else if d == 2 {
        "2".to_owned()
    } else if d == 3 {
        "3".to_owned()
    } else if d == 4 {
        "4".to_owned()
    } else if d == 5 {
        "5".to_owned()
    } else if d == 6 {
        "6".to_owned()
    } else if d == 7 {
        "7".to_owned()
    } else if d == 8 {
        "8".to_owned()
    } else {
        "9".to_owned()
    };
    proof {
        reveal_strlit("0");
        reveal_strlit("1");
        reveal_strlit("2");
        reveal_strlit("3");
        reveal_strlit("4");
        reveal_strlit("5");
        reveal_strlit("6");
        reveal_strlit("7");
        reveal_strlit("8");
        reveal_strlit("9");
        assert(r@ =~= seq![spec_digit_char(d as int)]);
    }
    r
}

fn nat_text(v: u32) -> (r: String)
    ensures
        r@ == spec_nat_text(v as int),
    decreases v,
{
    if v < 10 {
        digit_text(v)
    } else {
        let mut s: String = nat_text(v / 10);
        let last: String = digit_text(v % 10);
        s.append(last.as_str());
        s
    }
}

fn int_text(v: i32) -> (r: String)
    ensures
        r@ == spec_int_text(v as int),
{
    if v < 0 {
        let magnitude: u32 = (-(v as i64)) as u32;
        let mut s: String = "-".to_owned();
        let digits: String = nat_text(magnitude);
        s.append(digits.as_str());
        proof {
            reveal_strlit("-");
            assert(s@ =~= seq!['-'] + spec_nat_text(-(v as int)));
        }
        s
    } else {
        nat_text(v as u32)
    }
}

fn literal_text(lit: &Literal) -> (r: String)
    ensures
        r@ == spec_literal_text(*lit),
{
    match lit {
        Literal::Int(v) => int_text(*v),
        Literal::Text(t) => {
            let mut s: String = "\"".to_owned();
            s.append(t.as_str());
            s.append("\"");
            proof {
                reveal_strlit("\"");
                assert(s@ =~= seq!['"'] + t@ + seq!['"']);
            }
            s
        },
    }
}

impl Expression {
    /// Whether the expression mentions the `arguments` binding.
    pub fn contains_arguments(&self) -> (r: bool)
        ensures
            r == self.spec_contains_arguments(),
        decreases *self,
    {
        match self {
            Expression::Identifier(name) => {
                let arguments_name: String = "arguments".to_owned();
                name.eq(&arguments_name)
            },
            Expression::ArrayLiteral(array) => array.contains_arguments(),
            _ => false,
        }
    }

    /// Whether the expression contains the given symbol.
    pub fn contains(&self, symbol: ContainsSymbol) -> (r: bool)
        ensures
            r == self.spec_contains(symbol),
        decreases *self,
    {
        match self {
            Expression::This => symbol == ContainsSymbol::This,
            Expression::NewTarget => symbol == ContainsSymbol::NewTarget,
            Expression::ArrayLiteral(array) => array.contains(symbol),
            _ => false,
        }
    }

    /// Textual rendering of the expression.
    pub fn to_interned_string(&self) -> (r: String)
        ensures
            r@ == self.spec_text(),
        decreases *self,
    {
        match self {
            Expression::This => "this".to_owned(),
            Expression::NewTarget => "new.target".to_owned(),
            Expression::Identifier(name) => name.clone(),
            Expression::Literal(lit) => literal_text(lit),
            Expression::ArrayLiteral(array) => array.to_interned_string(),
        }
    }
}

impl ArrayLiteral {
    /// Whether some item of the literal mentions the `arguments` binding.
    pub fn contains_arguments(&self) -> (r: bool)
        ensures
            r == self.spec_contains_arguments(),
        decreases *self,
    {
        let mut i: usize = 0;
        while i < self.arr.len()
            invariant
                0 <= i <= self.arr@.len(),
                forall|j: int|
                    0 <= j < i ==> !((#[trigger] self.arr@[j]) matches Some(e)
                        && e.spec_contains_arguments()),
            decreases self.arr@.len() - i,
        {
            match &self.arr[i] {
                Some(e) => {
                    if e.contains_arguments() {
                        return true;
                    }
                },
                None => {},
            }
            i = i + 1;
        }
        false
    }

    /// Whether some item of the literal contains the given symbol.
    pub fn contains(&self, symbol: ContainsSymbol) -> (r: bool)
        ensures
            r == self.spec_contains(symbol),
        decreases *self,
    {
        let mut i: usize = 0;
        while i < self.arr.len()
            invariant
                0 <= i <= self.arr@.len(),
                forall|j: int|
                    0 <= j < i ==> !((#[trigger] self.arr@[j]) matches Some(e)
                        && e.spec_contains(symbol)),
            decreases self.arr@.len() - i,
        {
            match &self.arr[i] {
                Some(e) => {
                    if e.contains(symbol) {
                        return true;
                    }
                },
                None => {},
            }
            i = i + 1;
        }
        false
    }

    /// Textual rendering: the items in order between square brackets,
    /// joined by ", ", an elision rendering as nothing.
    pub fn to_interned_string(&self) -> (r: String)
        ensures
            r@ == self.spec_text(),
        decreases *self,
    {
        let mut buf: String = "[".to_owned();
        proof {
            reveal_strlit("[");
            reveal_strlit("]");
            reveal_strlit(", ");
            assert(self.arr@.subrange(0, 0) =~= Seq::<Option<Expression>>::empty());
        }
        let mut i: usize = 0;
        while i < self.arr.len()
            invariant
                0 <= i <= self.arr@.len(),
                buf@ == seq!['['] + spec_items_text(self.arr@.subrange(0, i as int)),
            decreases self.arr@.len() - i,
        {
            if i > 0 {
                buf.append(", ");
            }
            match &self.arr[i] {
                Some(e) => {
                    let item: String = e.to_interned_string();
                    buf.append(item.as_str());
                },
                None => {},
            }
            proof {
                reveal_strlit("[");
                reveal_strlit(", ");
                let prev = self.arr@.subrange(0, i as int);
                let done = self.arr@.subrange(0, i + 1);
                assert(done.drop_last() =~= prev);
                assert(done.last() == self.arr@[i as int]);
                assert(done.len() == i + 1);
                assert(spec_items_text(done) == spec_items_text(prev) + (if i > 0 {
                    ", "@
                } else {
                    Seq::<char>::empty()
                }) + spec_item_text(done.last()));
                assert(buf@ =~= seq!['['] + spec_items_text(done));
            }
            i = i + 1;
        }
        buf.append("]");
        proof {
            reveal_strlit("]");
            assert(self.arr@.subrange(0, self.arr@.len() as int) =~= self.arr@);
            assert(buf@ =~= self.spec_text());
        }
        buf
    }
}

impl From<Vec<Option<Expression>>> for ArrayLiteral {
    fn from(decl: Vec<Option<Expression>>) -> (r: ArrayLiteral) {
        ArrayLiteral { arr: decl, has_trailing_comma_spread: false }
    }
}

impl vstd::std_specs::convert::FromSpecImpl<Vec<Option<Expression>>> for ArrayLiteral {
    open spec fn obeys_from_spec() -> bool {
        true
    }

    open spec fn from_spec(decl: Vec<Option<Expression>>) -> ArrayLiteral {
        ArrayLiteral { arr: decl, has_trailing_comma_spread: false }
    }
}

impl From<ArrayLiteral> for Expression {
    fn from(array: ArrayLiteral) -> (r: Expression) {
        Expression::ArrayLiteral(array)
    }
}

impl vstd::std_specs::convert::FromSpecImpl<ArrayLiteral> for Expression {
    open spec fn obeys_from_spec() -> bool {
        true
    }

    open spec fn from_spec(array: ArrayLiteral) -> Expression {
        Expression::ArrayLiteral(array)
    }
}

} // verus!
