//! What the compiler tells the driver.
use vstd::prelude::*;

verus! {

/// What the driver has to know of a contract.
#[derive(Debug)]
pub struct ContractInfo {
    pub name: String,
    /// Whether code is made for it.
    pub is_concrete: bool,
    /// The bytes of account data that its fixed layout takes, as the compiler displays the number.
    pub fixed_layout_size: String,
}

/// What the driver has to know of a resolved file.
#[derive(Debug)]
pub struct NamespaceInfo {
    pub contracts: Vec<ContractInfo>,
    /// How the target of the file is displayed.
    pub target: String,
    /// Whether any diagnostic is an error.
    pub any_errors: bool,
}

/// What the driver has to know of an emitted binary.
#[derive(Debug)]
pub struct BinaryInfo {
    pub name: String,
    /// Whether the binary has a runtime module beside its main one.
    pub has_runtime: bool,
}

/// A form of code that is no finished binary.
#[derive(Debug, Clone, Copy, PartialEq, Eq, Structural)]
pub enum Generate {
    Object,
    Assembly,
}

/// An answer of the compiler. `E` is a diagnostic and `A` an entry of a contract's ABI.
#[derive(Debug)]
pub enum Event<E, A> {
    /// A file has been parsed and resolved.
    Resolved(NamespaceInfo),
    /// The diagnostics of the file in hand.
    Diagnostics(Vec<E>),
    /// The stem of the name of the file in hand.
    Stem(String),
    /// The ABI of a contract.
    Abi(Vec<A>),
    /// A binary has been emitted.
    Emitted(BinaryInfo),
    /// Code of the binary in hand, or why there is none.
    Generated(Result<Vec<u8>, String>),
    /// Finished code.
    Code(Vec<u8>),
    /// The ABI of a contract as a file, and the extension of that file.
    AbiFile { content: String, extension: String },
}

/// How the work on a file, or on the bundle, ended.
#[derive(Debug, Clone, Copy, PartialEq, Eq, Structural)]
pub enum Verdict {
    Accepted,
    Rejected,
    /// The whole run is to end with this exit code.
    Exit(i32),
}

/// The contents of a `NamespaceInfo`.
#[verifier::ext_equal]
pub struct NamespaceView {
    pub contracts: Seq<ContractInfo>,
    pub target: Seq<char>,
    pub any_errors: bool,
}

impl View for NamespaceInfo {
    type V = NamespaceView;

    open spec fn view(&self) -> NamespaceView {
        NamespaceView {
            contracts: self.contracts@,
            target: self.target@,
            any_errors: self.any_errors,
        }
    }
}

/// The contents of a list of files.
pub open spec fn namespace_views(namespaces: Seq<NamespaceInfo>) -> Seq<NamespaceView> {
    namespaces.map_values(|n: NamespaceInfo| n@)
}

/// Whether the files, and the contracts of each, can be numbered.
pub open spec fn numbered(namespaces: Seq<NamespaceView>) -> bool {
    &&& namespaces.len() <= usize::MAX
    &&& forall|n: int|
        0 <= n < namespaces.len() ==> (#[trigger] namespaces[n]).contracts.len() <= usize::MAX
}

/// Files in a vector can be numbered.
pub proof fn vector_is_numbered(namespaces: Vec<NamespaceInfo>)
    ensures
        numbered(namespace_views(namespaces@)),
{
    assert(namespaces.len() <= usize::MAX);
    assert forall|n: int| 0 <= n < namespaces@.len() implies (#[trigger] namespace_views(
        namespaces@,
    )[n]).contracts.len() <= usize::MAX by {
        assert(namespaces@[n].contracts.len() <= usize::MAX);
    }
}

/// What is known of a file before it has been resolved.
pub open spec fn unresolved() -> NamespaceView {
    NamespaceView { contracts: Seq::empty(), target: Seq::empty(), any_errors: false }
}

impl NamespaceInfo {
    /// What is known of a file before it has been resolved.
    pub fn unresolved() -> (r: Self)
        ensures
            r@ == unresolved(),
    {
        NamespaceInfo { contracts: Vec::new(), target: String::new(), any_errors: false }
    }
}

/// What is said of a resolved file is what the compiler told of it, field by field.
pub proof fn namespaces_are_their_contents(namespace: NamespaceInfo)
    ensures
        namespace@.contracts == namespace.contracts@,
        namespace@.target == namespace.target@,
        namespace@.any_errors == namespace.any_errors,
{
}

/// A list of files is seen one by one, in order.
pub proof fn namespaces_are_seen_one_by_one(namespaces: Seq<NamespaceInfo>)
    ensures
        namespace_views(namespaces).len() == namespaces.len(),
        forall|n: int|
            0 <= n < namespaces.len() ==> #[trigger] namespace_views(namespaces)[n]
                == namespaces[n]@,
{
}

} // verus!
