//! Describable failures and the owning, type-erased handle that carries one.
use vstd::prelude::*;
use vstd::string::*;

verus! {

/// A value that says what went wrong: a message, and possibly the failure that caused it.
pub trait Failure {
    /// The message of this failure.
    spec fn text(&self) -> Seq<char>;

    /// The messages of the failures below this one, the immediate cause first.
    spec fn causes(&self) -> Seq<Seq<char>>;

    /// Renders the message of this failure.
    fn message(&self) -> (r: String)
        ensures
            r@ == self.text(),
    ;

    /// The immediate cause, carried as a failure of its own, if there is one.
    fn source(&self) -> (r: Option<DynamicError>)
        ensures
            match r {
                Some(d) => d@ == self.causes(),
                None => self.causes().len() == 0,
            },
    ;
}

/// An owned failure whose concrete type has been erased: its message and the
/// chain of causes below it. The chain is finite by construction, so walking it
/// with `cause` always ends.
#[derive(Debug)]
pub struct DynamicError {
    message: String,
    cause: Option<Box<DynamicError>>,
}

impl View for DynamicError {
    /// The messages along the chain, this failure's own first.
    type V = Seq<Seq<char>>;

    closed spec fn view(&self) -> Seq<Seq<char>> {
        self.chain()
    }
}

impl DynamicError {
    closed spec fn chain(&self) -> Seq<Seq<char>>
        decreases self,
    {
        seq![self.message@] + match self.cause {
            Some(c) => c.chain(),
            None => Seq::empty(),
        }
    }

    /// A chain always holds at least the failure's own message.
    pub proof fn lemma_chain_not_empty(&self)
        ensures
            self@.len() >= 1,
    {
    }

    /// Erases the concrete type of `e`, keeping its message and its causes.
    pub fn wrap<E: Failure>(e: E) -> (r: DynamicError)
        ensures
            r@ == seq![e.text()] + e.causes(),
    {
        let message = e.message();
        let cause = match e.source() {
            Some(d) => Some(Box::new(d)),
            None => None,
        };
        let r = DynamicError { message, cause };
        proof {
            if r.cause is None {
                assert(r@ =~= seq![e.text()] + e.causes());
            }
        }
        r
    }

    /// The message of this failure.
    pub fn message(&self) -> (r: String)
        ensures
            r@ == self@[0],
    {
        self.message.clone()
    }

    /// The immediate cause, without walking further down the chain.
    pub fn cause(&self) -> (r: Option<&DynamicError>)
        ensures
            r is None <==> self@.len() == 1,
            r matches Some(c) ==> self@ == seq![self@[0]] + c@,
    {
        proof {
            if self.cause is Some {
                self.cause->Some_0.lemma_chain_not_empty();
            }
        }
        match &self.cause {
            Some(c) => Some(&**c),
            None => None,
        }
    }
}

} // verus!
