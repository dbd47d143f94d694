//! The content builder: accumulates a font selection, a text position and
//! text fragments, and emits the fixed five-operation text content stream.

use vstd::prelude::*;
use vstd::string::StringExecFns;

use crate::objects::{lemma_values_view_is_map, values_view, SpecValue, Value};
use crate::{BEGIN_TEXT, END_TEXT, TEXT_FONT, TEXT_ONE, TEXT_POSITION};

verus! {

/// One content-stream operation: an operator and its operands.
#[derive(Debug, PartialEq, Eq)]
pub struct ContentOp {
    pub operator: String,
    pub operands: Vec<Value>,
}

/// An ordered list of content-stream operations.
#[derive(Debug, PartialEq, Eq)]
pub struct ContentOps {
    pub operations: Vec<ContentOp>,
}

impl View for ContentOp {
    type V = (Seq<char>, Seq<SpecValue>);

    open spec fn view(&self) -> (Seq<char>, Seq<SpecValue>) {
        (self.operator@, values_view(self.operands@))
    }
}

impl View for ContentOps {
    type V = Seq<(Seq<char>, Seq<SpecValue>)>;

    open spec fn view(&self) -> Seq<(Seq<char>, Seq<SpecValue>)> {
        self.operations@.map_values(|op: ContentOp| op@)
    }
}

/// The configuration error `build` reports when a required field was
/// never set.
#[derive(Debug, PartialEq, Eq, Structural)]
pub enum BuildError {
    /// `position` was never called.
    PositionNotSet,
    /// `font` was never called.
    FontNotSet,
}

/// The ordered concatenation of the fragments, with no separator.
pub open spec fn concat_all(texts: Seq<Seq<char>>) -> Seq<char>
    decreases texts.len(),
{
    if texts.len() == 0 {
        Seq::empty()
    } else {
        texts[0] + concat_all(texts.drop_first())
    }
}

/// Concatenating one more fragment appends it to the concatenation.
proof fn lemma_concat_all_take_succ(texts: Seq<Seq<char>>, i: int)
    requires
        0 <= i < texts.len(),
    ensures
        concat_all(texts.take(i + 1)) == concat_all(texts.take(i)) + texts[i],
    decreases i,
{
    if i == 0 {
        assert(texts.take(1).drop_first() =~= Seq::<Seq<char>>::empty());
        assert(concat_all(Seq::<Seq<char>>::empty()) == Seq::<char>::empty());
        assert(texts.take(1)[0] == texts[0]);
        assert(concat_all(texts.take(1)) =~= texts[0]);
        assert(concat_all(texts.take(0)) + texts[0] =~= texts[0]);
    } else {
        lemma_concat_all_take_succ(texts.drop_first(), i - 1);
        assert(texts.take(i + 1).drop_first() =~= texts.drop_first().take(i));
        assert(texts.take(i).drop_first() =~= texts.drop_first().take(i - 1));
        assert(texts.take(i + 1)[0] == texts[0]);
        assert(texts.take(i)[0] == texts[0]);
        assert(texts.drop_first()[i - 1] == texts[i]);
        assert(concat_all(texts.take(i + 1)) == texts[0] + concat_all(texts.drop_first().take(i)));
        assert(concat_all(texts.take(i)) == texts[0] + concat_all(texts.drop_first().take(i - 1)));
        assert(concat_all(texts.take(i)) + texts[i] =~= texts[0] + (concat_all(
            texts.drop_first().take(i - 1),
        ) + texts.drop_first()[i - 1]));
    }
}

/// The mathematical value of the fragment list: each fragment's characters.
pub open spec fn texts_view(texts: Seq<&str>) -> Seq<Seq<char>> {
    texts.map_values(|t: &str| t@)
}

/// The state of a `ContentBuilder`.
pub struct BuilderState {
    pub font_resource: Option<Seq<char>>,
    pub font_size: Option<u16>,
    pub position: Option<(u32, u32)>,
    pub texts: Seq<Seq<char>>,
}

/// The five operations `build` emits on success: begin-text, set-font,
/// set-position, show-text with the concatenated fragments, end-text.
pub open spec fn spec_text_operations(
    font_resource: Seq<char>,
    font_size: u16,
    x: u32,
    y: u32,
    text: Seq<char>,
) -> Seq<(Seq<char>, Seq<SpecValue>)> {
    seq![
        ("BT"@, Seq::empty()),
        ("Tf"@, seq![SpecValue::Name(font_resource), SpecValue::Integer(font_size as int)]),
        ("Td"@, seq![SpecValue::Integer(x as int), SpecValue::Integer(y as int)]),
        ("Tj"@, seq![SpecValue::Text(text)]),
        ("ET"@, Seq::empty()),
    ]
}

/// A staged accumulator for one text run. Configure it with `font`,
/// `position` and `text`, then consume it with `build`.
pub struct ContentBuilder<'a> {
    font_resource: Option<&'a str>,
    font_size: Option<u16>,
    position: Option<(u32, u32)>,
    texts: Vec<&'a str>,
}

impl<'a> View for ContentBuilder<'a> {
    type V = BuilderState;

    closed spec fn view(&self) -> BuilderState {
        BuilderState {
            font_resource: match self.font_resource {
                Some(s) => Some(s@),
                None => None,
            },
            font_size: self.font_size,
            position: self.position,
            texts: texts_view(self.texts@),
        }
    }
}

impl<'a> ContentBuilder<'a> {
    /// A fresh builder: no font, no position, no fragments.
    pub fn new() -> (b: Self)
        ensures
            b@.font_resource is None,
            b@.font_size is None,
            b@.position is None,
            b@.texts == Seq::<Seq<char>>::empty(),
    {
        let b = Self { font_resource: None, font_size: None, position: None, texts: Vec::new() };
        proof {
            assert(b@.texts =~= Seq::<Seq<char>>::empty());
        }
        b
    }

    /// Sets (or overwrites) the font resource name and size.
    pub fn font(self, resource: &'a str, size: u16) -> (b: Self)
        ensures
            b@.font_resource == Some(resource@),
            b@.font_size == Some(size),
            b@.position == self@.position,
            b@.texts == self@.texts,
    {
        Self { font_resource: Some(resource), font_size: Some(size), ..self }
    }

    /// Sets (or overwrites) the text placement origin; the last call wins.
    pub fn position(self, position: (u32, u32)) -> (b: Self)
        ensures
            b@.font_resource == self@.font_resource,
            b@.font_size == self@.font_size,
            b@.position == Some(position),
            b@.texts == self@.texts,
    {
        Self { position: Some(position), ..self }
    }

    /// Appends one fragment; fragments are neither escaped nor validated.
    pub fn text(self, text: &'a str) -> (b: Self)
        ensures
            b@.font_resource == self@.font_resource,
            b@.font_size == self@.font_size,
            b@.position == self@.position,
            b@.texts == self@.texts.push(text@),
    {
        let mut texts = self.texts;
        texts.push(text);
        let b = Self {
            font_resource: self.font_resource,
            font_size: self.font_size,
            position: self.position,
            texts,
        };
        proof {
            assert(b@.texts =~= self@.texts.push(text@));
        }
        b
    }

    /// Consumes the builder. Fails when position or font were never set;
    /// on success emits the fixed five-operation sequence whose show-text
    /// operand is the ordered concatenation of all fragments.
    pub fn build(self) -> (r: Result<ContentOps, BuildError>)
        ensures
            r is Ok <==> (self@.font_resource is Some && self@.font_size is Some
                && self@.position is Some),
            self@.position is None ==> r == Result::<ContentOps, BuildError>::Err(
                BuildError::PositionNotSet,
            ),
            self@.position is Some && (self@.font_resource is None || self@.font_size is None)
                ==> r == Result::<ContentOps, BuildError>::Err(BuildError::FontNotSet),
            r matches Ok(c) ==> c@ == spec_text_operations(
                self@.font_resource->0,
                self@.font_size->0,
                (self@.position->0).0,
                (self@.position->0).1,
                concat_all(self@.texts),
            ),
    {
        let (x, y): (u32, u32) = match self.position {
            Some(p) => p,
            None => {
                return Err(BuildError::PositionNotSet);
            },
        };
        let font_resource: &str = match self.font_resource {
            Some(s) => s,
            None => {
                return Err(BuildError::FontNotSet);
            },
        };
        let font_size: u16 = match self.font_size {
            Some(s) => s,
            None => {
                return Err(BuildError::FontNotSet);
            },
        };
        let text = concat_texts(&self.texts);
        let mut tf_operands: Vec<Value> = Vec::new();
        tf_operands.push(Value::Name(font_resource.to_owned()));
        tf_operands.push(Value::Integer(font_size as i64));
        let mut td_operands: Vec<Value> = Vec::new();
        td_operands.push(Value::Integer(x as i64));
        td_operands.push(Value::Integer(y as i64));
        let mut tj_operands: Vec<Value> = Vec::new();
        tj_operands.push(Value::Text(text));
        let mut operations: Vec<ContentOp> = Vec::new();
        operations.push(ContentOp { operator: BEGIN_TEXT.to_owned(), operands: Vec::new() });
        operations.push(ContentOp { operator: TEXT_FONT.to_owned(), operands: tf_operands });
        operations.push(ContentOp { operator: TEXT_POSITION.to_owned(), operands: td_operands });
        operations.push(ContentOp { operator: TEXT_ONE.to_owned(), operands: tj_operands });
        operations.push(ContentOp { operator: END_TEXT.to_owned(), operands: Vec::new() });
        let c = ContentOps { operations };
        proof {
            lemma_values_view_is_map(c.operations@[0].operands@);
            lemma_values_view_is_map(c.operations@[1].operands@);
            lemma_values_view_is_map(c.operations@[2].operands@);
            lemma_values_view_is_map(c.operations@[3].operands@);
            lemma_values_view_is_map(c.operations@[4].operands@);
            assert(c.operations@[0]@.1 =~= Seq::<SpecValue>::empty());
            assert(c.operations@[4]@.1 =~= Seq::<SpecValue>::empty());
            assert(c.operations@[1]@.1 =~= seq![
                SpecValue::Name(self@.font_resource->0),
                SpecValue::Integer(self@.font_size->0 as int),
            ]);
            assert(c.operations@[2]@.1 =~= seq![
                SpecValue::Integer(x as int),
                SpecValue::Integer(y as int),
            ]);
            assert(c.operations@[3]@.1 =~= seq![SpecValue::Text(concat_all(self@.texts))]);
            assert(c@ =~= spec_text_operations(
                self@.font_resource->0,
                self@.font_size->0,
                x,
                y,
                concat_all(self@.texts),
            ));
        }
        Ok(c)
    }
}

/// Concatenates the fragments in order, with no separator.
fn concat_texts(texts: &Vec<&str>) -> (r: String)
    ensures
        r@ == concat_all(texts_view(texts@)),
{
    let ghost all = texts_view(texts@);
    let mut r = String::new();
    let mut i: usize = 0;
    proof {
        assert(all.take(0) =~= Seq::<Seq<char>>::empty());
    }
    while i < texts.len()
        invariant
            i <= texts.len(),
            all == texts_view(texts@),
            r@ == concat_all(all.take(i as int)),
        decreases texts.len() - i,
    {
        proof {
            lemma_concat_all_take_succ(all, i as int);
        }
        r.append(texts[i]);
        i = i + 1;
    }
    proof {
        assert(all.take(texts@.len() as int) =~= all);
    }
    r
}

} // verus!
