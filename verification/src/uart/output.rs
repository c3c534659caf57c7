//! Where guest TX bytes go, and the lines they make.
use vstd::prelude::*;

verus! {

broadcast use vstd::group_vstd_default;

/// `std::io::Error`, carried through without looking inside.
#[verifier::external_type_specification]
#[verifier::external_body]
pub struct ExIoError(std::io::Error);

/// Bytes that a sink took.
pub type Written = Seq<u8>;

/// Where transmitted bytes are appended.
///
/// The specification functions say what the sink took so far, and whether it can fail. Every sink
/// defines them, and `write_all` keeps to them.
pub trait ByteSink {
    /// Bytes taken so far.
    spec fn written(&self) -> Written;

    /// The sink takes everything, now and later.
    spec fn never_fails(&self) -> bool;

    /// Write guest TX bytes.
    fn write_all(&mut self, bytes: &[u8]) -> (r: std::io::Result<()>)
        ensures
            r is Ok ==> final(self).written() == old(self).written() + bytes@,
            old(self).never_fails() ==> r is Ok && final(self).never_fails(),
    ;
}

impl ByteSink for Vec<u8> {
    open spec fn written(&self) -> Written {
        self@
    }

    open spec fn never_fails(&self) -> bool {
        true
    }

    fn write_all(&mut self, bytes: &[u8]) -> (r: std::io::Result<()>) {
        self.extend_from_slice(bytes);
        assert(self@ =~= old(self)@ + bytes@);
        Ok(())
    }
}

/// Opening the serial log failed.
#[derive(Debug, Clone, PartialEq, Eq)]
pub enum UartError {
    /// The serial log file could not be created.
    Create {
        /// Requested path.
        path: String,
        /// Filesystem error.
        source: String,
    },
}

impl UartError {
    /// The message for `self`.
    pub open spec fn text(self) -> Seq<char> {
        match self {
            UartError::Create { path, source } => "create serial log "@ + path@ + ": "@ + source@,
        }
    }

    /// What went wrong, in words.
    pub fn message(&self) -> (s: String)
        ensures
            s@ == self.text(),
    {
        match self {
            UartError::Create { path, source } => {
                let mut s: String = String::new();
                s.append("create serial log ");
                s.append(path.as_str());
                s.append(": ");
                s.append(source.as_str());
                assert(s@ =~= self.text());
                s
            },
        }
    }
}

/// A line is handed out at the latest when its text takes this many bytes.
pub const LINE_LIMIT: usize = 256;

/// Bytes that `text` takes, of characters up to `0xff`: those above `0x7f` take two.
pub open spec fn text_bytes(text: Seq<char>) -> nat
    decreases text.len(),
{
    if text.len() == 0 {
        0
    } else {
        text_bytes(text.drop_last()) + if (text.last() as u32) < 0x80 {
            1nat
        } else {
            2nat
        }
    }
}

/// The text so far and the line handed out after `byte` came in. A newline ends the line and is
/// not part of it; an empty line is not handed out.
pub open spec fn line_after(text: Seq<char>, byte: u8) -> (Seq<char>, Option<Seq<char>>) {
    let longer = text.push(byte as char);
    if byte == 0x0a {
        flushed(text)
    } else if text_bytes(longer) >= LINE_LIMIT {
        flushed(longer)
    } else {
        (longer, None)
    }
}

/// The text so far and the line handed out when the line ends.
pub open spec fn flushed(text: Seq<char>) -> (Seq<char>, Option<Seq<char>>) {
    if text.len() == 0 {
        (text, None)
    } else {
        (Seq::empty(), Some(text))
    }
}

/// Holds TX bytes until a newline, then returns the line without that newline.
#[derive(Debug)]
pub struct LineBuf {
    buf: String,
    bytes: usize,
}

impl View for LineBuf {
    type V = Seq<char>;

    closed spec fn view(&self) -> Seq<char> {
        self.buf@
    }
}

impl LineBuf {
    /// The text is shorter than the limit.
    pub closed spec fn wf(&self) -> bool {
        self.bytes == text_bytes(self.buf@) && self.bytes < LINE_LIMIT
    }

    /// No text yet.
    pub fn new() -> (b: Self)
        ensures
            b.wf(),
            b@ == Seq::<char>::empty(),
    {
        LineBuf { buf: String::new(), bytes: 0 }
    }

    /// Take one byte.
    pub fn push(&mut self, byte: u8) -> (line: Option<String>)
        requires
            old(self).wf(),
        ensures
            final(self).wf(),
            final(self)@ == line_after(old(self)@, byte).0,
            line is Some == line_after(old(self)@, byte).1 is Some,
            line matches Some(s) ==> Some(s@) == line_after(old(self)@, byte).1,
    {
        if byte == 0x0a {
            return self.flush();
        }
        let width: usize = if byte < 0x80 {
            1
        } else {
            2
        };
        self.buf.push(byte as char);
        proof {
            assert(self.buf@.drop_last() =~= old(self).buf@);
        }
        if self.bytes + width >= LINE_LIMIT {
            return self.flush_text();
        }
        self.bytes = self.bytes + width;
        None
    }

    /// End the line.
    pub fn flush(&mut self) -> (line: Option<String>)
        requires
            old(self).wf(),
        ensures
            final(self).wf(),
            final(self)@ == flushed(old(self)@).0,
            line is Some == flushed(old(self)@).1 is Some,
            line matches Some(s) ==> Some(s@) == flushed(old(self)@).1,
    {
        self.flush_text()
    }

    fn flush_text(&mut self) -> (line: Option<String>)
        ensures
            old(self).buf@.len() == 0 ==> *final(self) == *old(self),
            old(self).buf@.len() > 0 ==> final(self).wf(),
            final(self)@ == flushed(old(self)@).0,
            line is Some == flushed(old(self)@).1 is Some,
            line matches Some(s) ==> Some(s@) == flushed(old(self)@).1,
    {
        if self.buf.as_str().is_empty() {
            None
        } else {
            let mut line: String = String::new();
            std::mem::swap(&mut line, &mut self.buf);
            self.bytes = 0;
            Some(line)
        }
    }
}

} // verus!
