use vstd::prelude::*;

verus! {

/// Number of bytes in the UTF-8 encoding of a character sequence.
pub open spec fn utf8_len(s: Seq<char>) -> nat {
    vstd::utf8::encode_utf8(s).len()
}

/// An owned `String` together with a model of its buffer: `capacity` stands
/// for the size in bytes of the buffer the string owns. It is erased when the
/// crate is compiled; only the trusted operations below, each of which makes
/// one call of the standard library, say what it is after the call (and, with
/// the type invariant, that it holds the text), and every such statement is
/// true of the buffer the standard library keeps. Verified code never sets it.
///
/// `history` lists the size of the buffer when the string was made and after
/// each append since, in order; its last entry is the current size.
pub struct GrowableString {
    text: String,
    capacity: Ghost<nat>,
    history: Ghost<Seq<nat>>,
}

impl View for GrowableString {
    type V = Seq<char>;

    closed spec fn view(&self) -> Seq<char> {
        self.text@
    }
}

impl GrowableString {
    /// The size of the buffer, in bytes.
    pub closed spec fn buffer_size(&self) -> nat {
        self.capacity@
    }

    /// The sizes the buffer has had: when the string was made, then after
    /// each append, in order.
    pub closed spec fn buffer_history(&self) -> Seq<nat> {
        self.history@
    }

    /// The buffer holds every byte of the text, its size is a `usize`, and the
    /// history ends with the current size.
    #[verifier::type_invariant]
    closed spec fn buffer_holds_text(&self) -> bool {
        &&& utf8_len(self.text@) <= self.capacity@ <= usize::MAX
        &&& self.history@.len() >= 1
        &&& self.history@.last() == self.capacity@
    }

    /// `String::new`: an empty string, which the standard library documents
    /// as not allocating, so its buffer has size 0.
    #[verifier::external_body]
    pub fn new() -> (r: Self)
        ensures
            r@ == Seq::<char>::empty(),
            r.buffer_size() == 0,
            r.buffer_history() == seq![0nat],
    {
        GrowableString { text: String::new(), capacity: Ghost(0), history: Ghost(seq![0nat]) }
    }

    /// `String::from` on a string slice: an owned copy of its characters, in
    /// a buffer whose size is not stated beyond holding them.
    #[verifier::external_body]
    pub fn from_str(s: &str) -> (r: Self)
        ensures
            r@ == s@,
            r.buffer_history() == seq![r.buffer_size()],
    {
        GrowableString {
            text: String::from(s),
            capacity: Ghost(vstd::pervasive::arbitrary()),
            history: Ghost(vstd::pervasive::arbitrary()),
        }
    }

    /// `String::push_str`: appends the characters of `other`. The buffer never
    /// shrinks, as the standard library documents of the vector underneath;
    /// how much it grows is not stated. The new size joins the history.
    #[verifier::external_body]
    pub fn push_str(&mut self, other: &str)
        ensures
            final(self)@ == old(self)@ + other@,
            final(self).buffer_size() >= old(self).buffer_size(),
            final(self).buffer_history() == old(self).buffer_history().push(final(self).buffer_size()),
    {
        self.text.push_str(other)
    }

    /// `String::push`: appends one character. The buffer never shrinks; how
    /// much it grows is not stated. The new size joins the history.
    #[verifier::external_body]
    pub fn push(&mut self, c: char)
        ensures
            final(self)@ == old(self)@.push(c),
            final(self).buffer_size() >= old(self).buffer_size(),
            final(self).buffer_history() == old(self).buffer_history().push(final(self).buffer_size()),
    {
        self.text.push(c)
    }

    /// `String::capacity`: the size of the buffer.
    #[verifier::external_body]
    pub fn capacity(&self) -> (r: usize)
        ensures
            r == self.buffer_size(),
    {
        self.text.capacity()
    }

    /// Length of the text in bytes.
    pub fn len(&self) -> (n: usize)
        ensures
            n == utf8_len(self@),
            n <= self.buffer_size(),
    {
        proof {
            use_type_invariant(self);
        }
        self.text.as_str().len()
    }

    /// The text, borrowed.
    pub fn as_str(&self) -> (r: &str)
        ensures
            r@ == self@,
    {
        self.text.as_str()
    }

    /// The owned `String`, given up by the model.
    pub fn into_string(self) -> (r: String)
        ensures
            r@ == self@,
    {
        self.text
    }
}

} // verus!
