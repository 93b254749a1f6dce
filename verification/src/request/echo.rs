//! The echo method, which hands its arguments back.

use crate::error::{result_view, Error, ErrorView};
use crate::json::{
    expect_spec, lemma_next_token, lemma_skip_space, lemma_skip_token, skip_space,
    skip_token_spec, Cursor, Parsed, Parser, Token,
};
use vstd::prelude::*;
use vstd::slice::{slice_subrange, slice_to_vec};

verus! {

/// The arguments of an echo call: the JSON object as the client wrote it.
#[derive(Clone, Debug)]
pub struct Echo {
    pub arguments: Vec<u8>,
}

impl View for Echo {
    type V = Seq<u8>;

    open spec fn view(&self) -> Seq<u8> {
        self.arguments@
    }
}

/// Reading the arguments of an echo call: an object, taken as it is
/// written, from its opening brace to its closing one.
pub open spec fn echo_spec(bytes: Seq<u8>, c: Cursor) -> Parsed<Seq<u8>> {
    let start = skip_space(bytes, c.pos);
    let (open, c1) = expect_spec(bytes, c, Token::DictStart, false);
    match open {
        Err(e) => (Err(e), c1),
        Ok(_) => {
            let (rest, c2) = skip_token_spec(bytes, c1, c.depth_array, c.depth_dict);
            match rest {
                Err(e) => (Err(e), c2),
                Ok(_) => (Ok(bytes.subrange(start, c2.pos)), c2),
            }
        },
    }
}

impl Echo {
    /// Reads the arguments of an echo call.
    pub fn parse(parser: &mut Parser) -> (echo: Result<Echo, Error>)
        requires
            old(parser).wf(),
        ensures
            final(parser).wf(),
            final(parser).same_input(old(parser)),
            old(parser).pos <= final(parser).pos,
            (result_view(echo), final(parser).cursor()) == echo_spec(
                old(parser).bytes@,
                old(parser).cursor(),
            ),
    {
        let bytes = parser.bytes;
        let floor_array = parser.depth_array;
        let floor_dict = parser.depth_dict;
        let from = parser.pos;
        proof {
            lemma_next_token(bytes@, parser.cursor());
            lemma_skip_space(bytes@, parser.pos as int);
        }
        match parser.expect(Token::DictStart, false) {
            Err(e) => {
                return Err(e);
            },
            Ok(_) => {},
        }
        let after_open = parser.pos;
        proof {
            lemma_skip_token(bytes@, parser.cursor(), floor_array as int, floor_dict as int);
        }
        match parser.skip_token(floor_array, floor_dict) {
            Err(e) => {
                return Err(e);
            },
            Ok(_) => {},
        }
        // The opening brace is the byte before the cursor that follows it.
        let start = after_open - 1;
        let text = slice_subrange(bytes, start, parser.pos);
        Ok(Echo { arguments: slice_to_vec(text) })
    }
}

} // verus!
