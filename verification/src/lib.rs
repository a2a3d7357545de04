pub mod graph;
pub mod laws;
pub mod marker;
pub mod parse;
pub mod source;
pub mod text;

use vstd::prelude::*;

use crate::source::{LineSource, OnceSource, Source};

verus! {

/// The standard input as a token source: read whole at once, or line by line.
pub enum StdinSource {
    Once(OnceSource),
    Line(LineSource),
}

impl Source for StdinSource {
    open spec fn ready(&self) -> bool {
        match self {
            StdinSource::Once(s) => s.ready(),
            StdinSource::Line(s) => s.ready(),
        }
    }

    open spec fn upcoming(&self) -> Option<Seq<char>> {
        match self {
            StdinSource::Once(s) => s.upcoming(),
            StdinSource::Line(s) => s.upcoming(),
        }
    }

    open spec fn exhausted(&self) -> bool {
        match self {
            StdinSource::Once(s) => s.exhausted(),
            StdinSource::Line(s) => s.exhausted(),
        }
    }

    open spec fn steps_to(&self, next: Self) -> bool {
        match self {
            StdinSource::Once(s) => next matches StdinSource::Once(t) && s.steps_to(t),
            StdinSource::Line(s) => next matches StdinSource::Line(t) && s.steps_to(t),
        }
    }

    fn next_token(&mut self) -> (tok: Option<String>) {
        match self {
            StdinSource::Once(source) => source.next_token(),
            StdinSource::Line(source) => source.next_token(),
        }
    }

    fn is_empty(&mut self) -> (r: bool) {
        match self {
            StdinSource::Once(source) => source.is_empty(),
            StdinSource::Line(source) => source.is_empty(),
        }
    }
}

} // verus!
