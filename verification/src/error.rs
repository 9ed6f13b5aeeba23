use vstd::prelude::*;

verus! {

/// One error message for the shell around the engine: plain text to show
/// the user.
#[derive(Debug)]
pub struct CliError {
    message: String,
}

impl View for CliError {
    type V = Seq<char>;

    closed spec fn view(&self) -> Seq<char> {
        self.message@
    }
}

impl CliError {
    /// Wraps one message.
    pub fn new(message: String) -> (e: CliError)
        ensures
            e@ == message@,
    {
        CliError { message }
    }

    /// Gives the message up.
    pub fn into_message(self) -> (r: String)
        ensures
            r@ == self@,
    {
        self.message
    }
}

/// Error messages collected to be shown together, in the order they came.
#[derive(Debug)]
pub struct CliErrors {
    errors: Vec<CliError>,
}

impl View for CliErrors {
    type V = Seq<Seq<char>>;

    closed spec fn view(&self) -> Seq<Seq<char>> {
        Seq::new(self.errors@.len(), |i: int| self.errors@[i]@)
    }
}

impl CliErrors {
    /// No messages yet.
    pub fn new() -> (e: CliErrors)
        ensures
            e@ == Seq::<Seq<char>>::empty(),
    {
        let e = CliErrors { errors: Vec::new() };
        proof {
            assert(e@ =~= Seq::<Seq<char>>::empty());
        }
        e
    }

    /// Appends one message at the end.
    pub fn push(&mut self, error: CliError)
        ensures
            final(self)@ == old(self)@.push(error@),
    {
        let ghost message = error@;
        self.errors.push(error);
        proof {
            assert(self@ =~= old(self)@.push(message));
        }
    }

    /// Gives the messages up, in order.
    pub fn into_inner(self) -> (v: Vec<CliError>)
        ensures
            v@.len() == self@.len(),
            forall|i: int| 0 <= i < v@.len() ==> (#[trigger] v@[i])@ == self@[i],
    {
        self.errors
    }
}

} // verus!
