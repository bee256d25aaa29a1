use display_full_error::{RenderState, MESSAGE_LIMIT, SEPARATOR, TRUNCATION_MARKER};
use std::cell::Cell;
use std::error::Error;
use std::fmt;

/// Writes a chain of standard errors, led by the states of the library.
fn render(root: &(dyn Error + 'static)) -> String {
    let mut out = root.to_string();
    let mut state = RenderState::start();
    let mut current = root.source();
    loop {
        state = state.advance(current.is_some());
        match (state, current) {
            (RenderState::Printing(_), Some(source)) => {
                out.push_str(SEPARATOR);
                out.push_str(&source.to_string());
                current = source.source();
            }
            (RenderState::Truncated, _) => {
                out.push_str(SEPARATOR);
                out.push_str(TRUNCATION_MARKER);
                return out;
            }
            _ => return out,
        }
    }
}

#[derive(Debug, Clone, Copy, PartialEq, Eq, PartialOrd, Ord, Hash)]
enum UploadError {
    Permission(PermissionError),
    Limit(LimitError),
}

impl fmt::Display for UploadError {
    fn fmt(&self, f: &mut fmt::Formatter<'_>) -> fmt::Result {
        f.write_str("upload failed")
    }
}

impl Error for UploadError {
    fn source(&self) -> Option<&(dyn Error + 'static)> {
        Some(match self {
            UploadError::Permission(e) => e,
            UploadError::Limit(e) => e,
        })
    }
}

#[derive(Debug, Clone, Copy, PartialEq, Eq, PartialOrd, Ord, Hash)]
struct PermissionError;

impl fmt::Display for PermissionError {
    fn fmt(&self, f: &mut fmt::Formatter<'_>) -> fmt::Result {
        f.write_str("permission denied")
    }
}

impl Error for PermissionError {}

#[derive(Debug, Clone, Copy, PartialEq, Eq, PartialOrd, Ord, Hash)]
struct LimitError;

impl fmt::Display for LimitError {
    fn fmt(&self, f: &mut fmt::Formatter<'_>) -> fmt::Result {
        f.write_str("upload exceeds max limit")
    }
}

impl Error for LimitError {}

#[derive(Debug)]
struct CyclicError;

impl fmt::Display for CyclicError {
    fn fmt(&self, f: &mut fmt::Formatter<'_>) -> fmt::Result {
        f.write_str("cycle detected")
    }
}

impl Error for CyclicError {
    fn source(&self) -> Option<&(dyn Error + 'static)> {
        Some(self)
    }
}

/// One link of a chain that counts how often its message is read.
#[derive(Debug)]
struct Link {
    message: String,
    reads: Cell<usize>,
    source: Option<Box<Link>>,
}

impl fmt::Display for Link {
    fn fmt(&self, f: &mut fmt::Formatter<'_>) -> fmt::Result {
        self.reads.set(self.reads.get() + 1);
        f.write_str(&self.message)
    }
}

impl Error for Link {
    fn source(&self) -> Option<&(dyn Error + 'static)> {
        match &self.source {
            Some(link) => Some(link.as_ref()),
            None => None,
        }
    }
}

/// The chain `m1`, .., `m<len>`.
fn links(len: usize) -> Link {
    let mut chain: Option<Box<Link>> = None;
    for number in (1..len + 1).rev() {
        chain = Some(Box::new(Link {
            message: format!("m{}", number),
            reads: Cell::new(0),
            source: chain,
        }));
    }
    *chain.unwrap()
}

/// How often each message of the chain was read, root first.
fn reads(root: &Link) -> Vec<usize> {
    let mut counts = vec![root.reads.get()];
    let mut current = &root.source;
    while let Some(link) = current {
        counts.push(link.reads.get());
        current = &link.source;
    }
    counts
}

#[test]
fn standard_chain_of_the_limit_is_written_whole() {
    let root = links(1024);
    let mut expected = String::from("m1");
    for number in 2..1025 {
        expected.push_str(&format!(": m{}", number));
    }
    assert_eq!(render(&root), expected);
    assert_eq!(reads(&root), vec![1; 1024]);
}

#[test]
fn standard_chain_over_the_limit_is_cut_and_the_rest_unread() {
    let root = links(1025);
    let mut expected = String::from("m1");
    for number in 2..1025 {
        expected.push_str(&format!(": m{}", number));
    }
    expected.push_str(": ...");
    assert_eq!(render(&root), expected);
    let counts = reads(&root);
    assert_eq!(counts.len(), 1025);
    assert_eq!(counts[..1024], vec![1; 1024][..]);
    assert_eq!(counts[1024], 0);
}

#[test]
fn standard_error_without_source() {
    assert_eq!(render(&PermissionError), "permission denied");
}

#[test]
fn standard_error_with_source() {
    let input = UploadError::Permission(PermissionError);
    assert_eq!(render(&input), "upload failed: permission denied");
    let other = UploadError::Limit(LimitError);
    assert_eq!(render(&other), "upload failed: upload exceeds max limit");
}

#[test]
fn standard_error_with_cyclic_source_chain() {
    let expected = format!("{}...", ["cycle detected: "; 1024].join(""));
    assert_eq!(render(&CyclicError), expected);
}

#[test]
fn separator_and_marker_texts() {
    assert_eq!(SEPARATOR, ": ");
    assert_eq!(TRUNCATION_MARKER, "...");
}

#[test]
fn start_has_the_root_written() {
    assert_eq!(RenderState::start(), RenderState::Printing(1));
}

#[test]
fn a_cause_below_the_limit_is_printed_and_counted() {
    assert_eq!(RenderState::Printing(1).advance(true), RenderState::Printing(2));
    assert_eq!(RenderState::Printing(512).advance(true), RenderState::Printing(513));
    assert_eq!(RenderState::Printing(1023).advance(true), RenderState::Printing(1024));
}

#[test]
fn a_cause_at_the_limit_truncates() {
    assert_eq!(RenderState::Printing(MESSAGE_LIMIT).advance(true), RenderState::Truncated);
    assert_eq!(RenderState::Printing(1025).advance(true), RenderState::Truncated);
    assert_eq!(RenderState::Printing(u16::MAX).advance(true), RenderState::Truncated);
}

#[test]
fn no_cause_exhausts_at_every_count() {
    assert_eq!(RenderState::Printing(1).advance(false), RenderState::Exhausted);
    assert_eq!(RenderState::Printing(1023).advance(false), RenderState::Exhausted);
    assert_eq!(RenderState::Printing(MESSAGE_LIMIT).advance(false), RenderState::Exhausted);
    assert_eq!(RenderState::Printing(u16::MAX).advance(false), RenderState::Exhausted);
}

#[test]
fn closing_states_stay() {
    assert_eq!(RenderState::Truncated.advance(true), RenderState::Truncated);
    assert_eq!(RenderState::Truncated.advance(false), RenderState::Truncated);
    assert_eq!(RenderState::Exhausted.advance(true), RenderState::Exhausted);
    assert_eq!(RenderState::Exhausted.advance(false), RenderState::Exhausted);
}

#[test]
fn the_limit_is_reached_after_1023_causes() {
    let mut state = RenderState::start();
    for _ in 0..1023 {
        state = state.advance(true);
    }
    assert_eq!(state, RenderState::Printing(1024));
    assert_eq!(state.advance(true), RenderState::Truncated);
}
