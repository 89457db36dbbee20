//! The course of a run: when to read a line, when to run the model, and when to stop.

use crate::story::forward::ForwardError;
use crate::story::input::{parse_token_or_text_input, Args, TokenListError};
use crate::story::model::CONTEXT;
use crate::story::sample::seed_from_tokens;
use crate::story::tokenizer::Tokenizer;
use crate::text::same_text;
use vstd::prelude::*;

verus! {

/// What to do next.
#[derive(Clone, Copy, PartialEq, Eq, Debug)]
pub enum Action {
    /// Read a line; where `first` is set there are no tokens yet.
    ReadLine {
        /// There are no tokens yet.
        first: bool,
    },
    /// Run the model on the tokens and pick the next one.
    Predict,
    /// Stop.
    Stop,
}

/// A run.
pub struct Session {
    /// The tokens so far.
    pub tokens: Vec<usize>,
    /// The random state.
    pub rng: u64,
    /// Steps done.
    pub step: usize,
    /// Steps to do.
    pub n_predict: usize,
    /// Whether lines are read.
    pub interactive: bool,
    /// The line of this step has been read.
    pub ready: bool,
    /// The user has ended the run.
    pub ended: bool,
}

impl Session {
    /// The steps done are not more than those to do.
    pub open spec fn wf(&self) -> bool {
        self.step <= self.n_predict
    }

    /// What to do next.
    pub open spec fn next(&self) -> Action {
        if self.ended || self.step >= self.n_predict {
            Action::Stop
        } else if self.interactive && !self.ready {
            Action::ReadLine { first: self.tokens@.len() == 0 }
        } else {
            Action::Predict
        }
    }

    /// A run from the tokens that the arguments give.
    pub fn start(args: &Args) -> (r: Self)
        ensures
            r.wf(),
            r.tokens@ == args.tokens@,
            r.rng == crate::story::sample::at_least_one(
                crate::story::sample::seeded(args.tokens@, args.tokens@.len() as int),
            ),
            r.step == 0,
            r.n_predict == args.n_predict,
            r.interactive == args.interactive,
            !r.ready,
            !r.ended,
    {
        let tokens: Vec<usize> = args.tokens.clone();
        assert(tokens@ =~= args.tokens@);
        let rng: u64 = seed_from_tokens(&args.tokens);
        Session {
            tokens,
            rng,
            step: 0,
            n_predict: args.n_predict,
            interactive: args.interactive,
            ready: false,
            ended: false,
        }
    }

    /// What to do next.
    pub fn action(&self) -> (r: Action)
        ensures
            r == self.next(),
    {
        if self.ended || self.step >= self.n_predict {
            Action::Stop
        } else if self.interactive && !self.ready {
            Action::ReadLine { first: self.tokens.len() == 0 }
        } else {
            Action::Predict
        }
    }

    /// Everything but the tokens, the step and the two marks stays as it is.
    pub open spec fn same_run(&self, before: Self) -> bool {
        &&& self.rng == before.rng
        &&& self.n_predict == before.n_predict
        &&& self.interactive == before.interactive
    }

    /// What a line makes of a run. Nothing stands for the end of the input.
    pub open spec fn line_taken(
        before: Self,
        line: Option<Seq<char>>,
        tokenizer: Tokenizer,
        after: Self,
        r: Result<(), TokenListError>,
    ) -> bool {
        let exit = match line {
            None => true,
            Some(text) => text == "/exit"@,
        };
        &&& after.same_run(before)
        &&& if exit {
            &&& r is Ok
            &&& after.ended
            &&& after.tokens == before.tokens
            &&& after.step == before.step
            &&& after.ready == before.ready
        } else if line->0.len() == 0 {
            &&& r is Ok
            &&& !after.ended
            &&& after.tokens == before.tokens
            &&& if before.tokens@.len() == 0 {
                after.step == before.step + 1 && !after.ready
            } else {
                after.step == before.step && after.ready
            }
        } else {
            &&& !after.ended
            &&& after.step == before.step
            &&& match crate::story::input::line_tokens(line->0, tokenizer) {
                Ok(added) => {
                    &&& r is Ok
                    &&& after.ready
                    &&& after.tokens@ == before.tokens@ + added
                },
                Err(err) => {
                    &&& r matches Err(e) && e == err
                    &&& after.tokens == before.tokens
                    &&& after.ready == before.ready
                },
            }
        }
    }

    /// What a picked token makes of a run.
    pub open spec fn token_taken(
        before: Self,
        next: usize,
        after: Self,
        r: Result<(), ForwardError>,
    ) -> bool {
        &&& after.same_run(before)
        &&& after.tokens@ == before.tokens@.push(next)
        &&& after.step == before.step + 1
        &&& !after.ready
        &&& after.ended == before.ended
        &&& r == (if after.tokens@.len() > CONTEXT {
            Err::<(), ForwardError>(ForwardError::TooLong(after.tokens@.len() as usize))
        } else {
            Ok(())
        })
    }

    /// Takes a line without white space around it, or the end of the input. `/exit` and
    /// the end of the input end the run, an empty line lets the model go on, and without
    /// tokens it passes the step over; anything else adds tokens.
    pub fn on_line(&mut self, line: Option<&str>, tokenizer: &Tokenizer) -> (r: Result<
        (),
        TokenListError,
    >)
        requires
            old(self).wf(),
            old(self).next() is ReadLine,
            tokenizer.wf(),
        ensures
            final(self).wf(),
            Session::line_taken(
                *old(self),
                match line {
                    Some(text) => Some(text@),
                    None => None,
                },
                *tokenizer,
                *final(self),
                r,
            ),
    {
        let text: &str = match line {
            Some(text) => text,
            None => {
                self.ended = true;
                return Ok(());
            },
        };
        if same_text(text, "/exit") {
            self.ended = true;
            return Ok(());
        }
        if text.is_empty() {
            if self.tokens.len() == 0 {
                self.step = self.step + 1;
            } else {
                self.ready = true;
            }
            return Ok(());
        }
        let mut added: Vec<usize> = parse_token_or_text_input(text, tokenizer)?;
        let ghost before = self.tokens@;
        let ghost more = added@;
        self.tokens.append(&mut added);
        assert(self.tokens@ =~= before + more);
        self.ready = true;
        Ok(())
    }

    /// Takes the token that was picked. The sequence must not grow past what the model can
    /// look at.
    pub fn on_token(&mut self, next: usize) -> (r: Result<(), ForwardError>)
        requires
            old(self).wf(),
            old(self).next() is Predict,
        ensures
            final(self).wf(),
            Session::token_taken(*old(self), next, *final(self), r),
    {
        self.tokens.push(next);
        self.step = self.step + 1;
        self.ready = false;
        if self.tokens.len() > CONTEXT {
            return Err(ForwardError::TooLong(self.tokens.len()));
        }
        Ok(())
    }
}

/// A picked token is the last of the sequence and uses one step up. The run stops after the
/// last step; before it, a run at the keyboard asks for a line again, and any other goes on.
pub proof fn token_leads_on(
    before: Session,
    next: usize,
    after: Session,
    r: Result<(), ForwardError>,
)
    requires
        before.wf(),
        before.next() is Predict,
        Session::token_taken(before, next, after, r),
    ensures
        after.wf(),
        after.tokens@.len() == before.tokens@.len() + 1,
        after.tokens@.last() == next,
        forall|i: int|
            0 <= i < before.tokens@.len() ==> #[trigger] after.tokens@[i] == before.tokens@[i],
        after.step == before.n_predict ==> after.next() is Stop,
        after.step < before.n_predict && before.interactive ==> after.next() is ReadLine,
        after.step < before.n_predict && !before.interactive ==> after.next() is Predict,
        r is Err <==> after.tokens@.len() > CONTEXT,
{
}

/// A line that ends the run stops it; one that can be read, or an empty one behind tokens,
/// lets the model go on; one that cannot be read is asked for again and changes nothing.
pub proof fn line_leads_on(
    before: Session,
    line: Option<Seq<char>>,
    tokenizer: Tokenizer,
    after: Session,
    r: Result<(), TokenListError>,
)
    requires
        before.wf(),
        before.next() is ReadLine,
        Session::line_taken(before, line, tokenizer, after, r),
    ensures
        after.wf(),
        before.tokens@.is_prefix_of(after.tokens@),
        line is None || line == Some("/exit"@) ==> after.next() is Stop,
        line matches Some(text) && text != "/exit"@ && text.len() > 0 ==> if r is Ok {
            after.next() is Predict
        } else {
            after.next() == before.next() && after.tokens == before.tokens
        },
        line matches Some(text) && text.len() == 0 && before.tokens@.len() > 0 ==> after.next() is Predict,
        line matches Some(text) && text.len() == 0 && before.tokens@.len() == 0
            ==> !(after.next() is Predict) && after.step == before.step + 1,
{
    reveal_strlit("/exit");
    assert("/exit"@.len() == 5);
}

} // verus!
