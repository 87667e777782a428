//! The line cursor: what is left of the input, consumed a line at a time.
use vstd::prelude::*;
use vstd::string::*;
use crate::error::Error;
use crate::number::{IntWidth, parse_signed_line, parse_unsigned_line, signed_value, unsigned_value};
use crate::text::{at_delimiter, field_key, is_field_name, lemma_split_line, next_line, skip_delimiter};

verus! {

/// The remaining, unconsumed input of one decoding session.
///
/// Lines handed out are borrowed from the input, never copied.
pub struct Deserializer<'de> {
    input: &'de str,
}

/// Reads a scalar line as a string: a blank line is a delimiter, not a value.
pub open spec fn string_scalar(s: Seq<char>) -> Result<(Seq<char>, Seq<char>), Error> {
    match next_line(s) {
        Ok((line, rest)) => if line.len() == 0 {
            Err(Error::EmptyValueNotAllowed)
        } else {
            Ok((line, rest))
        },
        Err(e) => Err(e),
    }
}

/// Reads a scalar line as one character.
pub open spec fn char_scalar(s: Seq<char>) -> Result<(char, Seq<char>), Error> {
    match next_line(s) {
        Ok((line, rest)) => if line.len() == 0 {
            Err(Error::EmptyValueNotAllowed)
        } else if line.len() != 1 {
            Err(Error::CharacterOverflow)
        } else {
            Ok((line[0], rest))
        },
        Err(e) => Err(e),
    }
}

/// Reads a field name line and strips its markers.
pub open spec fn field_name(s: Seq<char>) -> Result<(Seq<char>, Seq<char>), Error> {
    match next_line(s) {
        Ok((line, rest)) => if is_field_name(line) {
            Ok((field_key(line), rest))
        } else {
            Err(Error::MalformedFieldName)
        },
        Err(e) => Err(e),
    }
}

/// Reads a scalar line as an unsigned integer of the given width.
pub open spec fn unsigned_scalar(s: Seq<char>, width: IntWidth) -> Result<(int, Seq<char>), Error> {
    match next_line(s) {
        Ok((line, rest)) => match unsigned_value(line, width) {
            Some(n) => Ok((n, rest)),
            None => Err(Error::IntegerFormatError),
        },
        Err(e) => Err(e),
    }
}

/// Reads a scalar line as a signed integer of the given width.
pub open spec fn signed_scalar(s: Seq<char>, width: IntWidth) -> Result<(int, Seq<char>), Error> {
    match next_line(s) {
        Ok((line, rest)) => match signed_value(line, width) {
            Some(n) => Ok((n, rest)),
            None => Err(Error::IntegerFormatError),
        },
        Err(e) => Err(e),
    }
}

impl<'de> View for Deserializer<'de> {
    type V = Seq<char>;

    closed spec fn view(&self) -> Seq<char> {
        self.input@
    }
}

impl<'de> Deserializer<'de> {
    /// Starts a session over the whole of `input`.
    pub fn from_str(input: &'de str) -> (r: Self)
        ensures
            r@ == input@,
    {
        Deserializer { input }
    }

    /// What is left of the input.
    pub fn remaining(&self) -> (r: &'de str)
        ensures
            r@ == self@,
    {
        self.input
    }

    /// Consumes the next line and its line break; the last line may have none.
    pub fn parse_line(&mut self) -> (r: Result<&'de str, Error>)
        ensures
            match next_line(old(self)@) {
                Ok((line, rest)) => r matches Ok(l) && l@ == line && final(self)@ == rest,
                Err(e) => r == Err::<&'de str, Error>(e) && final(self)@ == old(self)@,
            },
    {
        let n = self.input.unicode_len();
        if n == 0 {
            return Err(Error::UnexpectedEnd);
        }
        let mut i: usize = 0;
        while i < n && self.input.get_char(i) != '\n'
            invariant
                0 <= i <= n,
                n == self.input@.len(),
                forall|j: int| 0 <= j < i ==> self.input@[j] != '\n',
            decreases n - i,
        {
            i = i + 1;
        }
        let line = self.input.substring_char(0, i);
        let rest = if i < n {
            self.input.substring_char(i + 1, n)
        } else {
            self.input.substring_char(n, n)
        };
        proof {
            assert forall|j: int| 0 <= j < i implies #[trigger] self.input@.subrange(0, i as int)[j]
                != '\n' by {
                assert(self.input@.subrange(0, i as int)[j] == self.input@[j]);
            }
            lemma_split_line(self.input@, i as int);
            if i == n {
                assert(rest@ =~= Seq::<char>::empty());
            }
        }
        self.input = rest;
        Ok(line)
    }

    /// Whether the next line is blank or no input is left. Consumes nothing.
    pub fn peek_delimiter(&self) -> (r: bool)
        ensures
            r == at_delimiter(self@),
    {
        self.input.unicode_len() == 0 || self.input.get_char(0) == '\n'
    }

    /// Consumes a blank line, or nothing at the end of the input.
    pub fn parse_delimiter(&mut self) -> (r: Result<(), Error>)
        ensures
            match skip_delimiter(old(self)@) {
                Ok(rest) => r is Ok && final(self)@ == rest,
                Err(e) => r == Err::<(), Error>(e) && final(self)@ == old(self)@,
            },
    {
        let n = self.input.unicode_len();
        if n == 0 {
            Ok(())
        } else if self.input.get_char(0) == '\n' {
            self.input = self.input.substring_char(1, n);
            proof {
                assert(self.input@ =~= old(self)@.drop_first());
            }
            Ok(())
        } else {
            Err(Error::DelimiterExpected)
        }
    }

    /// Consumes a field name line and returns its key.
    pub fn parse_field_name(&mut self) -> (r: Result<&'de str, Error>)
        ensures
            match field_name(old(self)@) {
                Ok((key, rest)) => r matches Ok(k) && k@ == key && final(self)@ == rest,
                Err(e) => r == Err::<&'de str, Error>(e),
            },
    {
        let line = self.parse_line()?;
        let n = line.unicode_len();
        if n >= 2 && line.get_char(0) == '%' && line.get_char(n - 1) == '%' {
            Ok(line.substring_char(1, n - 1))
        } else {
            Err(Error::MalformedFieldName)
        }
    }

    /// Consumes a scalar line as a string.
    pub fn parse_string(&mut self) -> (r: Result<&'de str, Error>)
        ensures
            match string_scalar(old(self)@) {
                Ok((v, rest)) => r matches Ok(l) && l@ == v && final(self)@ == rest,
                Err(e) => r == Err::<&'de str, Error>(e),
            },
    {
        let line = self.parse_line()?;
        if line.unicode_len() == 0 {
            Err(Error::EmptyValueNotAllowed)
        } else {
            Ok(line)
        }
    }

    /// Consumes a scalar line as a single character.
    pub fn parse_char(&mut self) -> (r: Result<char, Error>)
        ensures
            match char_scalar(old(self)@) {
                Ok((v, rest)) => r == Ok::<char, Error>(v) && final(self)@ == rest,
                Err(e) => r == Err::<char, Error>(e),
            },
    {
        let line = self.parse_line()?;
        let n = line.unicode_len();
        if n == 0 {
            Err(Error::EmptyValueNotAllowed)
        } else if n != 1 {
            Err(Error::CharacterOverflow)
        } else {
            Ok(line.get_char(0))
        }
    }

    /// Consumes a scalar line as an unsigned integer of the given width.
    pub fn parse_unsigned(&mut self, width: IntWidth) -> (r: Result<u64, Error>)
        ensures
            match unsigned_scalar(old(self)@, width) {
                Ok((v, rest)) => r matches Ok(n) && n == v && final(self)@ == rest,
                Err(e) => r == Err::<u64, Error>(e),
            },
    {
        let line = self.parse_line()?;
        match parse_unsigned_line(line, width) {
            Some(n) => Ok(n),
            None => Err(Error::IntegerFormatError),
        }
    }

    /// Consumes a scalar line as a signed integer of the given width.
    pub fn parse_signed(&mut self, width: IntWidth) -> (r: Result<i64, Error>)
        ensures
            match signed_scalar(old(self)@, width) {
                Ok((v, rest)) => r matches Ok(n) && n == v && final(self)@ == rest,
                Err(e) => r == Err::<i64, Error>(e),
            },
    {
        let line = self.parse_line()?;
        match parse_signed_line(line, width) {
            Some(n) => Ok(n),
            None => Err(Error::IntegerFormatError),
        }
    }
}

} // verus!
