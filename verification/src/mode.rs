//! The operation that a run performs: how it follows from the flags, and what
//! it makes of one input.

use crate::codec::{
    copies_are_ascii, decoded, escaped, is_printable, lemma_escaped_printable_above_simple,
};
use crate::decode::{decode, decode_plus, space_form};
use crate::encode::{
    custom_set, encode_all, encode_all_plus, encode_all_reserved, encode_all_reserved_plus,
    encode_characters, encode_fragment, encode_path, encode_path_segment, encode_query,
    encode_query_plus, encode_url, encode_url_plus, encode_userinfo,
    lemma_plus_form_printable, plus_form, url_form, url_plus_form,
};
use crate::encode_sets::{
    all_except_space_set, all_reserved_plus_set, all_reserved_set, all_set, default_set,
    lemma_named_sets_nest, path_segment_set, plus_query_set, query_set, simple_set,
    userinfo_set, CustomEncodeSet,
};
use crate::error::EncodeError;
use vstd::prelude::*;
use vstd::string::*;
use vstd::utf8::*;

verus! {

/// The operation selected for a run.
pub enum Mode {
    Decode,
    DecodePlus,
    EncodeUrl,
    EncodeUrlPlus,
    EncodeQuery,
    EncodeQueryPlus,
    EncodePath,
    EncodePathSegment,
    EncodeUserinfo,
    EncodeFragment,
    EncodeAllReserved,
    EncodeAllReservedPlus,
    EncodeAll,
    EncodeAllPlus,
    /// Encode exactly the characters of the string held.
    EncodeCustom(String),
}

/// A mode as a value of specifications, its characters as a sequence.
pub enum ModeView {
    Decode,
    DecodePlus,
    EncodeUrl,
    EncodeUrlPlus,
    EncodeQuery,
    EncodeQueryPlus,
    EncodePath,
    EncodePathSegment,
    EncodeUserinfo,
    EncodeFragment,
    EncodeAllReserved,
    EncodeAllReservedPlus,
    EncodeAll,
    EncodeAllPlus,
    EncodeCustom(Seq<char>),
}

impl View for Mode {
    type V = ModeView;

    open spec fn view(&self) -> ModeView {
        match self {
            Mode::Decode => ModeView::Decode,
            Mode::DecodePlus => ModeView::DecodePlus,
            Mode::EncodeUrl => ModeView::EncodeUrl,
            Mode::EncodeUrlPlus => ModeView::EncodeUrlPlus,
            Mode::EncodeQuery => ModeView::EncodeQuery,
            Mode::EncodeQueryPlus => ModeView::EncodeQueryPlus,
            Mode::EncodePath => ModeView::EncodePath,
            Mode::EncodePathSegment => ModeView::EncodePathSegment,
            Mode::EncodeUserinfo => ModeView::EncodeUserinfo,
            Mode::EncodeFragment => ModeView::EncodeFragment,
            Mode::EncodeAllReserved => ModeView::EncodeAllReserved,
            Mode::EncodeAllReservedPlus => ModeView::EncodeAllReservedPlus,
            Mode::EncodeAll => ModeView::EncodeAll,
            Mode::EncodeAllPlus => ModeView::EncodeAllPlus,
            Mode::EncodeCustom(chars) => ModeView::EncodeCustom(chars@),
        }
    }
}

/// The flags of a run, as the command line gave them. An empty `encode_set`
/// stands for none given.
pub struct Flags {
    pub decode: bool,
    pub url: bool,
    pub path: bool,
    pub path_segment: bool,
    pub query: bool,
    pub userinfo: bool,
    pub fragment: bool,
    pub all: bool,
    pub plus: bool,
    pub encode_set: String,
}

/// One for a flag that is set, none for one that is not.
pub open spec fn one_if(flag: bool) -> nat {
    if flag {
        1
    } else {
        0
    }
}

impl Flags {
    /// How many of the nine flags that select an operation are set.
    pub open spec fn selectors(&self) -> nat {
        one_if(self.decode) + one_if(self.url) + one_if(self.path) + one_if(self.path_segment)
            + one_if(self.query) + one_if(self.userinfo) + one_if(self.fragment) + one_if(self.all)
            + one_if(self.encode_set@.len() > 0)
    }

    /// Whether the flags go together: at most one selects an operation, and
    /// plus form is not asked of an operation that has none.
    pub open spec fn conflict_free(&self) -> bool {
        &&& self.selectors() <= 1
        &&& self.plus ==> !self.path && !self.path_segment && !self.userinfo && !self.fragment
            && self.encode_set@.len() == 0
    }

    /// The mode that the flags select. Of flags that do not go together the
    /// first in this order decides.
    pub open spec fn selected(&self) -> ModeView {
        if self.decode {
            if self.plus {
                ModeView::DecodePlus
            } else {
                ModeView::Decode
            }
        } else if self.url {
            if self.plus {
                ModeView::EncodeUrlPlus
            } else {
                ModeView::EncodeUrl
            }
        } else if self.query {
            if self.plus {
                ModeView::EncodeQueryPlus
            } else {
                ModeView::EncodeQuery
            }
        } else if self.all {
            if self.plus {
                ModeView::EncodeAllPlus
            } else {
                ModeView::EncodeAll
            }
        } else if self.encode_set@.len() > 0 {
            ModeView::EncodeCustom(self.encode_set@)
        } else if self.path {
            ModeView::EncodePath
        } else if self.path_segment {
            ModeView::EncodePathSegment
        } else if self.userinfo {
            ModeView::EncodeUserinfo
        } else if self.fragment {
            ModeView::EncodeFragment
        } else if self.plus {
            ModeView::EncodeAllReservedPlus
        } else {
            ModeView::EncodeAllReserved
        }
    }

    /// Of flags that go together, each selector alone names the mode, plus
    /// form turns it into its plus variant, and no selector at all means
    /// every reserved character.
    pub proof fn lemma_selected_without_conflict(&self)
        requires
            self.conflict_free(),
        ensures
            self.decode ==> self.selected() == if self.plus {
                ModeView::DecodePlus
            } else {
                ModeView::Decode
            },
            self.url ==> self.selected() == if self.plus {
                ModeView::EncodeUrlPlus
            } else {
                ModeView::EncodeUrl
            },
            self.query ==> self.selected() == if self.plus {
                ModeView::EncodeQueryPlus
            } else {
                ModeView::EncodeQuery
            },
            self.all ==> self.selected() == if self.plus {
                ModeView::EncodeAllPlus
            } else {
                ModeView::EncodeAll
            },
            self.path ==> self.selected() == ModeView::EncodePath,
            self.path_segment ==> self.selected() == ModeView::EncodePathSegment,
            self.userinfo ==> self.selected() == ModeView::EncodeUserinfo,
            self.fragment ==> self.selected() == ModeView::EncodeFragment,
            self.encode_set@.len() > 0 ==> self.selected() == ModeView::EncodeCustom(
                self.encode_set@,
            ),
            self.selectors() == 0 ==> self.selected() == if self.plus {
                ModeView::EncodeAllReservedPlus
            } else {
                ModeView::EncodeAllReserved
            },
    {
    }
}

/// The mode that the flags select.
pub fn get_handler(opt: &Flags) -> (mode: Mode)
    ensures
        mode@ == opt.selected(),
{
    if opt.decode {
        if opt.plus {
            return Mode::DecodePlus;
        } else {
            return Mode::Decode;
        }
    }
    if opt.url {
        if opt.plus {
            return Mode::EncodeUrlPlus;
        } else {
            return Mode::EncodeUrl;
        }
    }
    if opt.query {
        if opt.plus {
            return Mode::EncodeQueryPlus;
        } else {
            return Mode::EncodeQuery;
        }
    }
    if opt.all {
        if opt.plus {
            return Mode::EncodeAllPlus;
        } else {
            return Mode::EncodeAll;
        }
    }
    if !opt.encode_set.as_str().is_empty() {
        return Mode::EncodeCustom(opt.encode_set.clone());
    }
    if opt.path {
        return Mode::EncodePath;
    }
    if opt.path_segment {
        return Mode::EncodePathSegment;
    }
    if opt.userinfo {
        return Mode::EncodeUserinfo;
    }
    if opt.fragment {
        return Mode::EncodeFragment;
    }
    if opt.plus {
        return Mode::EncodeAllReservedPlus;
    }
    Mode::EncodeAllReserved
}

/// The bytes of the text that `mode` makes of the text with the bytes
/// `input`, or the reason for which it refuses it.
pub open spec fn outcome_of(mode: ModeView, input: Seq<u8>) -> Result<Seq<u8>, EncodeError> {
    match mode {
        ModeView::Decode => decoded(input),
        ModeView::DecodePlus => decoded(space_form(input)),
        ModeView::EncodeUrl => match url_form(input) {
            Some(text) => Ok(text),
            None => Err(EncodeError::InvalidUrl),
        },
        ModeView::EncodeUrlPlus => match url_plus_form(input) {
            Some(text) => Ok(text),
            None => Err(EncodeError::InvalidUrl),
        },
        ModeView::EncodeQuery => Ok(escaped(input, query_set())),
        ModeView::EncodeQueryPlus => Ok(plus_form(escaped(input, plus_query_set()))),
        ModeView::EncodePath => Ok(escaped(input, default_set())),
        ModeView::EncodePathSegment => Ok(escaped(input, path_segment_set())),
        ModeView::EncodeUserinfo => Ok(escaped(input, userinfo_set())),
        ModeView::EncodeFragment => Ok(escaped(input, simple_set())),
        ModeView::EncodeAllReserved => Ok(escaped(input, all_reserved_set())),
        ModeView::EncodeAllReservedPlus => Ok(plus_form(escaped(input, all_reserved_plus_set()))),
        ModeView::EncodeAll => Ok(escaped(input, all_set())),
        ModeView::EncodeAllPlus => Ok(plus_form(escaped(input, all_except_space_set()))),
        ModeView::EncodeCustom(chars) => Ok(escaped(input, custom_set(encode_utf8(chars)))),
    }
}

/// The modes that encode under a set of their own, which holds every byte
/// without a printable form.
pub open spec fn encodes_under_named_set(mode: ModeView) -> bool {
    match mode {
        ModeView::Decode | ModeView::DecodePlus => false,
        ModeView::EncodeUrl | ModeView::EncodeUrlPlus => false,
        ModeView::EncodeCustom(_) => false,
        _ => true,
    }
}

/// Each mode that encodes under a set of its own accepts every input and
/// makes printable ASCII of it.
pub proof fn lemma_outcome_printable(mode: ModeView, input: Seq<u8>)
    requires
        encodes_under_named_set(mode),
    ensures
        accepts(mode, input),
        outcome_of(mode, input) matches Ok(text) && is_printable(text),
{
    lemma_named_sets_nest();
    match mode {
        ModeView::EncodeQuery => lemma_escaped_printable_above_simple(input, query_set()),
        ModeView::EncodeQueryPlus => {
            lemma_escaped_printable_above_simple(input, plus_query_set());
            lemma_plus_form_printable(escaped(input, plus_query_set()));
        },
        ModeView::EncodePath => lemma_escaped_printable_above_simple(input, default_set()),
        ModeView::EncodePathSegment => lemma_escaped_printable_above_simple(
            input,
            path_segment_set(),
        ),
        ModeView::EncodeUserinfo => lemma_escaped_printable_above_simple(input, userinfo_set()),
        ModeView::EncodeFragment => lemma_escaped_printable_above_simple(input, simple_set()),
        ModeView::EncodeAllReserved => lemma_escaped_printable_above_simple(
            input,
            all_reserved_set(),
        ),
        ModeView::EncodeAllReservedPlus => {
            lemma_escaped_printable_above_simple(input, all_reserved_plus_set());
            lemma_plus_form_printable(escaped(input, all_reserved_plus_set()));
        },
        ModeView::EncodeAll => lemma_escaped_printable_above_simple(input, all_set()),
        ModeView::EncodeAllPlus => {
            lemma_escaped_printable_above_simple(input, all_except_space_set());
            lemma_plus_form_printable(escaped(input, all_except_space_set()));
        },
        _ => {},
    }
}

/// Whether `mode` can take the text with the bytes `input`. Only a custom
/// set can refuse: what it leaves unencoded must be ASCII.
pub open spec fn accepts(mode: ModeView, input: Seq<u8>) -> bool {
    mode matches ModeView::EncodeCustom(chars) ==> copies_are_ascii(
        input,
        custom_set(encode_utf8(chars)),
    )
}

impl Mode {
    /// Whether this mode can take `string`.
    pub fn accepts_input(&self, string: &str) -> (accepted: bool)
        ensures
            accepted == accepts(self@, string.spec_bytes()),
    {
        match self {
            Mode::EncodeCustom(chars) => {
                let set = CustomEncodeSet::from(chars.as_str());
                let bytes = string.as_bytes();
                let mut i: usize = 0;
                while i < bytes.len()
                    invariant
                        i <= bytes.len(),
                        bytes@ == string.spec_bytes(),
                        self@ == ModeView::EncodeCustom(chars@),
                        set.members() == custom_set(encode_utf8(chars@)),
                        forall|j: int|
                            0 <= j < i && !set.members().contains(bytes@[j]) ==> bytes@[j] < 0x80,
                    decreases bytes.len() - i,
                {
                    if bytes[i] >= 0x80 && !set.contains(bytes[i]) {
                        assert(!set.members().contains(bytes@[i as int]));
                        return false;
                    }
                    i += 1;
                }
                true
            },
            _ => true,
        }
    }

    /// Applies this mode to one input.
    pub fn handle(&self, string: &str) -> (outcome: Result<String, EncodeError>)
        requires
            accepts(self@, string.spec_bytes()),
        ensures
            match outcome {
                Ok(text) => outcome_of(self@, string.spec_bytes()) == Ok::<Seq<u8>, EncodeError>(
                    encode_utf8(text@),
                ),
                Err(e) => outcome_of(self@, string.spec_bytes()) == Err::<Seq<u8>, EncodeError>(
                    e,
                ),
            },
    {
        match self {
            Mode::Decode => decode(string),
            Mode::DecodePlus => decode_plus(string),
            Mode::EncodeUrl => encode_url(string),
            Mode::EncodeUrlPlus => encode_url_plus(string),
            Mode::EncodeQuery => Ok(encode_query(string)),
            Mode::EncodeQueryPlus => Ok(encode_query_plus(string)),
            Mode::EncodePath => Ok(encode_path(string)),
            Mode::EncodePathSegment => Ok(encode_path_segment(string)),
            Mode::EncodeUserinfo => Ok(encode_userinfo(string)),
            Mode::EncodeFragment => Ok(encode_fragment(string)),
            Mode::EncodeAllReserved => Ok(encode_all_reserved(string)),
            Mode::EncodeAllReservedPlus => Ok(encode_all_reserved_plus(string)),
            Mode::EncodeAll => Ok(encode_all(string)),
            Mode::EncodeAllPlus => Ok(encode_all_plus(string)),
            Mode::EncodeCustom(chars) => Ok(encode_characters(string, chars.as_str())),
        }
    }
}

} // verus!
