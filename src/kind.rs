use vstd::prelude::*;

verus! {

/// The wrapping strategy that applies to an artifact.
#[derive(Debug, Clone, Copy, PartialEq, Eq)]
pub enum AutowrapKind {
    DynamicBinary,
    SharedLibrary,
    Script,
    Rewrap,
}

/// What the wrapping logic reads of a parsed ELF object.
#[derive(Debug, Clone)]
pub struct ElfSummary {
    /// The program interpreter, if the object names one.
    pub interpreter: Option<String>,
    /// Whether the object is marked as a shared object.
    pub is_lib: bool,
    /// The names of the libraries the object declares as needed, in order.
    pub libraries: Vec<String>,
}

impl View for ElfSummary {
    type V = (Option<Seq<char>>, bool, Seq<Seq<char>>);

    open spec fn view(&self) -> Self::V {
        (
            match self.interpreter {
                Some(s) => Some(s@),
                None => None,
            },
            self.is_lib,
            self.libraries.deep_view(),
        )
    }
}

/// The view of an optional summary.
pub open spec fn summary_view(e: Option<ElfSummary>) -> Option<(Option<Seq<char>>, bool, Seq<Seq<char>>)> {
    match e {
        Some(s) => Some(s@),
        None => None,
    }
}

/// What goblin's object parser reads from `contents`: the interpreter, the
/// shared-object mark and the needed libraries of an ELF object, or `None`
/// when the bytes do not parse as an ELF object.
pub uninterp spec fn parsed_elf(contents: Seq<u8>) -> Option<(Option<Seq<char>>, bool, Seq<Seq<char>>)>;

/// Relies on goblin::Object::parse: the ELF fields it reads from the bytes
/// (`interpreter`, `is_lib`, `libraries`), and no value for other objects or
/// bytes that do not parse.
#[verifier::external_body]
pub(crate) fn parse_elf(contents: &[u8]) -> (r: Option<ElfSummary>)
    ensures
        summary_view(r) == parsed_elf(contents@),
{
    match goblin::Object::parse(contents) {
        Ok(goblin::Object::Elf(elf)) => Some(ElfSummary {
            interpreter: elf.interpreter.map(|s| s.to_string()),
            is_lib: elf.is_lib,
            libraries: elf.libraries.iter().map(|s| s.to_string()).collect(),
        }),
        _ => None,
    }
}

impl ElfSummary {
    /// Reads an ELF object's summary from its bytes; `None` for bytes that
    /// are no ELF object.
    pub fn parse(contents: &[u8]) -> (r: Option<ElfSummary>)
        ensures
            summary_view(r) == parsed_elf(contents@),
    {
        parse_elf(contents)
    }
}

/// Whether `contents` starts with the shebang marker `#!`.
pub open spec fn has_shebang(contents: Seq<u8>) -> bool {
    contents.len() >= 2 && contents[0] == 0x23u8 && contents[1] == 0x21u8
}

/// The kind an artifact is wrapped as, from whether its bytes hold a pack,
/// its bytes, and its ELF summary. A pack comes first, then the shebang, then
/// an interpreter, then the shared-object mark.
pub open spec fn kind_of(
    has_pack: bool,
    contents: Seq<u8>,
    elf: Option<(Option<Seq<char>>, bool, Seq<Seq<char>>)>,
) -> Option<AutowrapKind> {
    if has_pack {
        Some(AutowrapKind::Rewrap)
    } else if has_shebang(contents) {
        Some(AutowrapKind::Script)
    } else {
        match elf {
            Some(e) => if e.0 is Some {
                Some(AutowrapKind::DynamicBinary)
            } else if e.1 {
                Some(AutowrapKind::SharedLibrary)
            } else {
                None
            },
            None => None,
        }
    }
}

/// Whether `contents` starts with `#!`.
pub fn starts_with_shebang(contents: &[u8]) -> (r: bool)
    ensures
        r == has_shebang(contents@),
{
    contents.len() >= 2 && contents[0] == 0x23u8 && contents[1] == 0x21u8
}

/// Classifies an artifact from whether a pack was extracted from it, its
/// bytes, and its ELF summary (`None` when it is no ELF object).
pub fn kind_from_parts(has_pack: bool, contents: &[u8], elf: &Option<ElfSummary>) -> (r: Option<
    AutowrapKind,
>)
    ensures
        r == kind_of(has_pack, contents@, summary_view(*elf)),
{
    if has_pack {
        Some(AutowrapKind::Rewrap)
    } else if starts_with_shebang(contents) {
        Some(AutowrapKind::Script)
    } else {
        match elf {
            Some(e) => if e.interpreter.is_some() {
                Some(AutowrapKind::DynamicBinary)
            } else if e.is_lib {
                Some(AutowrapKind::SharedLibrary)
            } else {
                None
            },
            None => None,
        }
    }
}

/// Classifies an artifact from its bytes and whether a pack was extracted
/// from them; `None` when it is not wrappable. The bytes are parsed as ELF
/// only when neither a pack nor a shebang decides.
pub fn autowrap_kind(contents: &[u8], has_pack: bool) -> (r: Option<AutowrapKind>)
    ensures
        r == kind_of(has_pack, contents@, parsed_elf(contents@)),
{
    if has_pack || starts_with_shebang(contents) {
        kind_from_parts(has_pack, contents, &None)
    } else {
        let elf = parse_elf(contents);
        kind_from_parts(has_pack, contents, &elf)
    }
}

/// Classification is a function of its inputs: equal inputs give the same
/// kind, whatever the number of calls.
pub proof fn classification_is_deterministic(
    has_pack: bool,
    a: Seq<u8>,
    b: Seq<u8>,
)
    requires
        a == b,
    ensures
        kind_of(has_pack, a, parsed_elf(a)) == kind_of(has_pack, b, parsed_elf(b)),
{
}

/// Bytes that hold a pack classify as a rewrap, whether or not they also
/// start with `#!` and whatever they parse as.
pub proof fn pack_means_rewrap(
    contents: Seq<u8>,
    elf: Option<(Option<Seq<char>>, bool, Seq<Seq<char>>)>,
)
    ensures
        kind_of(true, contents, elf) == Some(AutowrapKind::Rewrap),
{
}

} // verus!
