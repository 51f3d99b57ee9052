use vstd::prelude::*;

verus! {

/// Errors of the editor. Each carries its message; an I/O error carries the
/// text of the underlying error.
#[derive(Debug, Clone)]
pub enum KodeError {
    Io(String),
    Config(String),
    Buffer(String),
    Render(String),
    Lsp(String),
    Plugin(String),
    Parse(String),
    Other(String),
}

pub type KodeResult<T> = Result<T, KodeError>;

impl KodeError {
    /// The text the error is shown with: a prefix naming its kind, then its
    /// message.
    pub open spec fn spec_message(self) -> Seq<char> {
        match self {
            KodeError::Io(m) => "IO error: "@ + m@,
            KodeError::Config(m) => "Config error: "@ + m@,
            KodeError::Buffer(m) => "Buffer error: "@ + m@,
            KodeError::Render(m) => "Render error: "@ + m@,
            KodeError::Lsp(m) => "LSP error: "@ + m@,
            KodeError::Plugin(m) => "Plugin error: "@ + m@,
            KodeError::Parse(m) => "Parse error: "@ + m@,
            KodeError::Other(m) => m@,
        }
    }

    /// The text the error is shown with.
    pub fn message(&self) -> (r: String)
        ensures
            r@ == self.spec_message(),
    {
        let (prefix, m) = match self {
            KodeError::Io(m) => ("IO error: ", m),
            KodeError::Config(m) => ("Config error: ", m),
            KodeError::Buffer(m) => ("Buffer error: ", m),
            KodeError::Render(m) => ("Render error: ", m),
            KodeError::Lsp(m) => ("LSP error: ", m),
            KodeError::Plugin(m) => ("Plugin error: ", m),
            KodeError::Parse(m) => ("Parse error: ", m),
            KodeError::Other(m) => ("", m),
        };
        proof {
            reveal_strlit("");
        }
        let mut r = String::from_str(prefix);
        r.append(m.as_str());
        r
    }
}

} // verus!
