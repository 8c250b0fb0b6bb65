//! The compile adapter's output: what the compiler made of each contract of
//! each source file, and the bytecode that can be used of it. Running the
//! compiler is the caller's part; the caller writes what came back into an
//! `ArtifactMap`. The map keeps the contracts of a file in the order of their
//! names, whatever the order in which they were written into it, and the
//! bytecode comes out in that order.

use crate::text::{
    lemma_precedes_irreflexive, lemma_precedes_total, lemma_precedes_transitive, pair_views,
    precedes, same_text, text_precedes,
};
use vstd::prelude::*;

verus! {

/// The bytecode of a compiled contract.
#[derive(Debug)]
pub enum ContractCode {
    /// Fully linked: the bytes of the deployable code.
    Linked(Vec<u8>),
    /// A placeholder that still refers to a library without an address.
    Unlinked(String),
    /// The compiler gave no bytecode for the contract.
    Absent,
}

/// The model of `ContractCode`.
pub enum CodeView {
    Linked(Seq<u8>),
    Unlinked(Seq<char>),
    Absent,
}

impl View for ContractCode {
    type V = CodeView;

    open spec fn view(&self) -> CodeView {
        match self {
            ContractCode::Linked(bytes) => CodeView::Linked(bytes@),
            ContractCode::Unlinked(placeholder) => CodeView::Unlinked(placeholder@),
            ContractCode::Absent => CodeView::Absent,
        }
    }
}

/// What the compiler made of one contract.
#[derive(Debug)]
pub struct CompiledArtifact {
    pub name: String,
    pub code: ContractCode,
}

/// The model of `CompiledArtifact`.
pub struct ArtifactView {
    pub name: Seq<char>,
    pub code: CodeView,
}

impl View for CompiledArtifact {
    type V = ArtifactView;

    open spec fn view(&self) -> ArtifactView {
        ArtifactView { name: self.name@, code: self.code@ }
    }
}

/// The models of a sequence of artifacts.
pub open spec fn artifact_views(artifacts: Seq<CompiledArtifact>) -> Seq<ArtifactView> {
    artifacts.map_values(|artifact: CompiledArtifact| artifact@)
}

/// The contracts of one source file.
#[derive(Debug)]
pub struct FileArtifacts {
    file: String,
    contracts: Vec<CompiledArtifact>,
}

/// The model of `FileArtifacts`.
pub struct FileView {
    pub file: Seq<char>,
    pub contracts: Seq<ArtifactView>,
}

impl View for FileArtifacts {
    type V = FileView;

    closed spec fn view(&self) -> FileView {
        FileView { file: self.file@, contracts: artifact_views(self.contracts@) }
    }
}

/// The digit of a number below 16, in lower case.
pub open spec fn hex_digit(nibble: int) -> char {
    seq!['0', '1', '2', '3', '4', '5', '6', '7', '8', '9', 'a', 'b', 'c', 'd', 'e', 'f'][nibble]
}

/// Bytes in hexadecimal: two lower-case digits for each byte, the high half
/// first.
pub open spec fn hex_lower(bytes: Seq<u8>) -> Seq<char> {
    Seq::new(
        2 * bytes.len(),
        |i: int|
            if i % 2 == 0 {
                hex_digit(bytes[i / 2] as int / 16)
            } else {
                hex_digit(bytes[i / 2] as int % 16)
            },
    )
}

/// `hex::encode`: each byte as two lower-case hexadecimal digits.
#[verifier::external_body]
pub(crate) fn hex_encode(bytes: &Vec<u8>) -> (text: String)
    ensures
        text@ == hex_lower(bytes@),
{
    hex::encode(bytes)
}

/// The index of the first file of that name, or the number of files where
/// none has it.
pub open spec fn file_index(files: Seq<FileView>, file: Seq<char>) -> int
    decreases files.len(),
{
    if files.len() == 0 || files[0].file == file {
        0
    } else {
        1 + file_index(files.skip(1), file)
    }
}

/// Where a contract of that name belongs among contracts in the order of
/// their names: the index of the first contract whose name does not come
/// before it, or the number of contracts where every name does.
pub open spec fn contract_slot(contracts: Seq<ArtifactView>, name: Seq<char>) -> int
    decreases contracts.len(),
{
    if contracts.len() == 0 || !precedes(contracts[0].name, name) {
        0
    } else {
        1 + contract_slot(contracts.skip(1), name)
    }
}

/// The contracts registered under a file, in the order of their names; none
/// for a file that the map does not know.
pub open spec fn contracts_of(files: Seq<FileView>, file: Seq<char>) -> Seq<ArtifactView> {
    if 0 <= file_index(files, file) < files.len() {
        files[file_index(files, file)].contracts
    } else {
        Seq::empty()
    }
}

/// What one contract gives: its name and its bytecode in hexadecimal, where
/// the bytecode is linked; nothing where it is a placeholder or absent.
pub open spec fn bytecode_of(artifact: ArtifactView) -> Option<(Seq<char>, Seq<char>)> {
    match artifact.code {
        CodeView::Linked(bytes) => Some((artifact.name, hex_lower(bytes))),
        _ => None,
    }
}

/// The bytecodes of a sequence of contracts, in their order.
pub open spec fn bytecodes_of(contracts: Seq<ArtifactView>) -> Seq<(Seq<char>, Seq<char>)> {
    contracts.filter_map(|artifact: ArtifactView| bytecode_of(artifact))
}

/// The contracts with one more: in place of the contract of that name, or,
/// where there is none, at the place that its name gives it.
pub open spec fn with_contract(contracts: Seq<ArtifactView>, artifact: ArtifactView) -> Seq<
    ArtifactView,
> {
    let at = contract_slot(contracts, artifact.name);
    if 0 <= at < contracts.len() && contracts[at].name == artifact.name {
        contracts.update(at, artifact)
    } else {
        contracts.insert(at, artifact)
    }
}

/// The files with one more contract under `file`: among the contracts of
/// that file, or under a new file at the end where the map has none of that
/// name.
pub open spec fn with_artifact(
    files: Seq<FileView>,
    file: Seq<char>,
    artifact: ArtifactView,
) -> Seq<FileView> {
    let at = file_index(files, file);
    if 0 <= at < files.len() {
        files.update(at, FileView { file, contracts: with_contract(files[at].contracts, artifact) })
    } else {
        files.push(FileView { file, contracts: seq![artifact] })
    }
}

/// The contracts stand in the order of their names, each name coming before
/// the next: so no two contracts have one name.
pub open spec fn in_name_order(contracts: Seq<ArtifactView>) -> bool {
    forall|i: int, j: int|
        0 <= i < j < contracts.len() ==> precedes(
            (#[trigger] contracts[i]).name,
            (#[trigger] contracts[j]).name,
        )
}

/// No two files have one name, and the contracts of each file stand in the
/// order of their names.
pub open spec fn distinct_keys(files: Seq<FileView>) -> bool {
    &&& forall|i: int, j: int|
        0 <= i < j < files.len() ==> (#[trigger] files[i]).file != (#[trigger] files[j]).file
    &&& forall|i: int| 0 <= i < files.len() ==> in_name_order((#[trigger] files[i]).contracts)
}

/// Before the slot of a name stand the contracts whose names come before
/// it, and the contract at the slot is not one of them.
pub proof fn lemma_contract_slot(contracts: Seq<ArtifactView>, name: Seq<char>)
    ensures
        0 <= contract_slot(contracts, name) <= contracts.len(),
        contract_slot(contracts, name) < contracts.len() ==> !precedes(
            contracts[contract_slot(contracts, name)].name,
            name,
        ),
        forall|i: int|
            0 <= i < contract_slot(contracts, name) ==> precedes(
                (#[trigger] contracts[i]).name,
                name,
            ),
    decreases contracts.len(),
{
    if contracts.len() > 0 && precedes(contracts[0].name, name) {
        lemma_contract_slot(contracts.skip(1), name);
        assert forall|i: int| 0 <= i < contract_slot(contracts, name) implies precedes(
            (#[trigger] contracts[i]).name,
            name,
        ) by {
            if i > 0 {
                assert(contracts.skip(1)[i - 1] == contracts[i]);
            }
        }
    }
}

/// Contracts in the order of their names have a name once at most.
pub proof fn lemma_names_are_distinct(contracts: Seq<ArtifactView>, i: int, j: int)
    requires
        in_name_order(contracts),
        0 <= i < j < contracts.len(),
    ensures
        contracts[i].name != contracts[j].name,
{
    lemma_precedes_irreflexive(contracts[i].name);
}

/// Where `file_index` points there is a file of that name, and none before
/// it.
pub proof fn lemma_file_index(files: Seq<FileView>, file: Seq<char>)
    ensures
        0 <= file_index(files, file) <= files.len(),
        file_index(files, file) < files.len() ==> files[file_index(files, file)].file == file,
        forall|i: int| 0 <= i < file_index(files, file) ==> files[i].file != file,
    decreases files.len(),
{
    if files.len() > 0 && files[0].file != file {
        lemma_file_index(files.skip(1), file);
        assert forall|i: int| 0 <= i < file_index(files, file) implies files[i].file != file by {
            if i > 0 {
                assert(files.skip(1)[i - 1] == files[i]);
            }
        }
    }
}

/// Registering a contract keeps the contracts in the order of their names.
pub proof fn lemma_with_contract_in_order(contracts: Seq<ArtifactView>, artifact: ArtifactView)
    requires
        in_name_order(contracts),
    ensures
        in_name_order(with_contract(contracts, artifact)),
{
    lemma_contract_slot(contracts, artifact.name);
    let name = artifact.name;
    let at = contract_slot(contracts, name);
    let after = with_contract(contracts, artifact);
    if at < contracts.len() && contracts[at].name == name {
        assert forall|i: int, j: int| 0 <= i < j < after.len() implies precedes(
            (#[trigger] after[i]).name,
            (#[trigger] after[j]).name,
        ) by {
            assert(after[i].name == contracts[i].name);
            assert(after[j].name == contracts[j].name);
        }
    } else {
        if at < contracts.len() {
            lemma_precedes_total(name, contracts[at].name);
        }
        assert forall|i: int, j: int| 0 <= i < j < after.len() implies precedes(
            (#[trigger] after[i]).name,
            (#[trigger] after[j]).name,
        ) by {
            if j < at {
                assert(after[i] == contracts[i] && after[j] == contracts[j]);
            } else if j == at {
                assert(after[i] == contracts[i] && after[j] == artifact);
            } else if i < at {
                assert(after[i] == contracts[i] && after[j] == contracts[j - 1]);
            } else if i == at {
                assert(after[i] == artifact && after[j] == contracts[j - 1]);
                if j - 1 > at {
                    assert(precedes(contracts[at].name, contracts[j - 1].name));
                    lemma_precedes_transitive(name, contracts[at].name, contracts[j - 1].name);
                }
            } else {
                assert(after[i] == contracts[i - 1] && after[j] == contracts[j - 1]);
            }
        }
    }
}

/// The bytecodes of contracts that stand in the order of their names stand
/// in the order of their names.
pub proof fn lemma_bytecodes_in_name_order(contracts: Seq<ArtifactView>, i: int, j: int)
    requires
        in_name_order(contracts),
        0 <= i < j < bytecodes_of(contracts).len(),
    ensures
        precedes(bytecodes_of(contracts)[i].0, bytecodes_of(contracts)[j].0),
    decreases contracts.len(),
{
    let pick = |artifact: ArtifactView| bytecode_of(artifact);
    if contracts.len() > 0 {
        let rest = contracts.drop_last();
        let last = contracts.last();
        assert forall|a: int, b: int| 0 <= a < b < rest.len() implies precedes(
            (#[trigger] rest[a]).name,
            (#[trigger] rest[b]).name,
        ) by {
            assert(rest[a] == contracts[a] && rest[b] == contracts[b]);
        }
        if j < bytecodes_of(rest).len() {
            lemma_bytecodes_in_name_order(rest, i, j);
            assert(bytecodes_of(contracts)[i] == bytecodes_of(rest)[i]);
            assert(bytecodes_of(contracts)[j] == bytecodes_of(rest)[j]);
        } else {
            assert(bytecode_of(last) == Some(bytecodes_of(contracts)[j]));
            assert(bytecodes_of(contracts)[i] == bytecodes_of(rest)[i]);
            lemma_only_linked_surface(rest, i);
            let k = choose|k: int|
                0 <= k < rest.len() && (#[trigger] rest[k]).code is Linked && bytecode_of(rest[k])
                    == Some(bytecodes_of(rest)[i]);
            assert(rest[k] == contracts[k]);
            assert(precedes(contracts[k].name, contracts[contracts.len() - 1].name));
        }
    }
}

/// Registering a contract keeps the keys of the map distinct.
pub proof fn lemma_with_artifact_distinct(
    files: Seq<FileView>,
    file: Seq<char>,
    artifact: ArtifactView,
)
    requires
        distinct_keys(files),
    ensures
        distinct_keys(with_artifact(files, file, artifact)),
{
    lemma_file_index(files, file);
    let at = file_index(files, file);
    let after = with_artifact(files, file, artifact);
    if at < files.len() {
        lemma_with_contract_in_order(files[at].contracts, artifact);
    }
    assert forall|i: int, j: int| 0 <= i < j < after.len() implies (#[trigger] after[i]).file != (
    #[trigger] after[j]).file by {
        if at < files.len() {
            assert(after[i].file == files[i].file);
            assert(after[j].file == files[j].file);
        } else if j < files.len() {
            assert(after[i] == files[i]);
            assert(after[j] == files[j]);
        } else {
            assert(after[i] == files[i]);
        }
    }
    assert forall|i: int| 0 <= i < after.len() implies in_name_order(
        (#[trigger] after[i]).contracts,
    ) by {
        if i < files.len() && i != at {
            assert(after[i] == files[i]);
        }
    }
}

/// Every bytecode that is handed out is the bytecode of a contract that is
/// linked, under the name of that contract: a placeholder or a contract
/// without bytecode never gives one.
pub proof fn lemma_only_linked_surface(contracts: Seq<ArtifactView>, i: int)
    requires
        0 <= i < bytecodes_of(contracts).len(),
    ensures
        exists|j: int|
            0 <= j < contracts.len() && (#[trigger] contracts[j]).code is Linked && bytecode_of(
                contracts[j],
            ) == Some(bytecodes_of(contracts)[i]),
{
    let pick = |artifact: ArtifactView| bytecode_of(artifact);
    let pair = bytecodes_of(contracts)[i];
    assert(contracts.filter_map(pick).contains(pair));
    contracts.lemma_filter_map_contains(pick, pair);
    let artifact = choose|artifact: ArtifactView| #[trigger]
        contracts.contains(artifact) && pick(artifact) == Some(pair);
    let j = choose|j: int| 0 <= j < contracts.len() && contracts[j] == artifact;
    assert(contracts[j].code is Linked);
}

/// Contracts of which none is linked give no bytecode at all.
pub proof fn lemma_unlinked_give_nothing(contracts: Seq<ArtifactView>)
    requires
        forall|j: int| 0 <= j < contracts.len() ==> !((#[trigger] contracts[j]).code is Linked),
    ensures
        bytecodes_of(contracts).len() == 0,
{
    if bytecodes_of(contracts).len() > 0 {
        lemma_only_linked_surface(contracts, 0);
    }
}

/// One linked contract gives one bytecode: its name and its bytes in
/// hexadecimal.
pub proof fn lemma_one_linked_contract(name: Seq<char>, bytes: Seq<u8>)
    ensures
        bytecodes_of(seq![ArtifactView { name, code: CodeView::Linked(bytes) }]) == seq![
            (name, hex_lower(bytes)),
        ],
{
    Seq::lemma_filter_map_singleton(
        ArtifactView { name, code: CodeView::Linked(bytes) },
        |artifact: ArtifactView| bytecode_of(artifact),
    );
}

/// Hexadecimal text has two characters for each byte, and each of them is a
/// digit or a letter from `a` to `f`.
pub proof fn lemma_hex_lower(bytes: Seq<u8>, i: int)
    requires
        0 <= i < 2 * bytes.len(),
    ensures
        hex_lower(bytes).len() == 2 * bytes.len(),
        ('0' <= hex_lower(bytes)[i] <= '9') || ('a' <= hex_lower(bytes)[i] <= 'f'),
{
}

/// What the compiler returned: for each source file, the contracts that it
/// made of it. A file stands in the map once, and the contracts of a file
/// stand in the order of their names, each name once.
#[derive(Debug)]
pub struct ArtifactMap {
    files: Vec<FileArtifacts>,
}

impl View for ArtifactMap {
    type V = Seq<FileView>;

    closed spec fn view(&self) -> Seq<FileView> {
        self.files@.map_values(|entry: FileArtifacts| entry@)
    }
}

impl ArtifactMap {
    #[verifier::type_invariant]
    spec fn keys_are_distinct(&self) -> bool {
        distinct_keys(self@)
    }

    /// A map without files.
    pub fn new() -> (map: ArtifactMap)
        ensures
            map@ == Seq::<FileView>::empty(),
    {
        let map = ArtifactMap { files: Vec::new() };
        assert(map@ =~= Seq::<FileView>::empty());
        map
    }

    /// The number of files. No file stands twice in the map, and the
    /// contracts of each file stand in the order of their names.
    pub fn len(&self) -> (count: usize)
        ensures
            count == self@.len(),
            distinct_keys(self@),
    {
        proof {
            use_type_invariant(self);
        }
        self.files.len()
    }

    /// The position of a file in the map, if the map knows it.
    fn find_file(&self, file: &str) -> (at: usize)
        ensures
            at <= self@.len(),
            at == file_index(self@, file@),
    {
        let mut at: usize = 0;
        proof {
            assert(self@.skip(0) =~= self@);
        }
        while at < self.files.len() && !same_text(self.files[at].file.as_str(), file)
            invariant
                at <= self.files.len(),
                file_index(self@, file@) == at + file_index(self@.skip(at as int), file@),
            decreases self.files.len() - at,
        {
            proof {
                assert(self@.skip(at as int).skip(1) =~= self@.skip(at + 1));
            }
            at += 1;
        }
        at
    }

    /// The contracts registered under a file, in the order of their names.
    pub fn contracts_in(&self, file: &str) -> (found: Option<&Vec<CompiledArtifact>>)
        ensures
            match found {
                Some(contracts) => 0 <= file_index(self@, file@) < self@.len() && artifact_views(
                    contracts@,
                ) == contracts_of(self@, file@) && in_name_order(artifact_views(contracts@)),
                None => file_index(self@, file@) == self@.len(),
            },
    {
        proof {
            use_type_invariant(self);
        }
        let at = self.find_file(file);
        if at < self.files.len() {
            proof {
                assert(self@[at as int].contracts == artifact_views(
                    self.files[at as int].contracts@,
                ));
                assert(in_name_order(self@[at as int].contracts));
            }
            Some(&self.files[at].contracts)
        } else {
            None
        }
    }

    /// Registers a contract under a file. A contract of the same name under
    /// the same file is replaced; a new contract takes the place among the
    /// contracts of the file that its name gives it; anything else stays as
    /// it is. So the order in which contracts are registered does not show.
    pub fn insert(&mut self, file: &str, artifact: CompiledArtifact)
        ensures
            final(self)@ == with_artifact(old(self)@, file@, artifact@),
            distinct_keys(final(self)@),
    {
        proof {
            use_type_invariant(&*self);
            lemma_with_artifact_distinct(self@, file@, artifact@);
            lemma_file_index(self@, file@);
        }
        let at = self.find_file(file);
        let ghost before = self@;
        let ghost added = artifact@;
        let mut files: Vec<FileArtifacts> = Vec::new();
        core::mem::swap(&mut self.files, &mut files);
        let ghost entries = files@;
        assert(entries.map_values(|entry: FileArtifacts| entry@) =~= before);
        if at < files.len() {
            let mut entry = files.remove(at);
            assert(entry@ == before[at as int]);
            let slot = find_slot(&entry.contracts, artifact.name.as_str());
            let ghost contracts = artifact_views(entry.contracts@);
            let known = slot < entry.contracts.len() && same_text(
                entry.contracts[slot].name.as_str(),
                artifact.name.as_str(),
            );
            if known {
                entry.contracts.set(slot, artifact);
            } else {
                entry.contracts.insert(slot, artifact);
            }
            proof {
                assert(artifact_views(entry.contracts@) =~= with_contract(contracts, added));
                assert(entry@ == (FileView {
                    file: file@,
                    contracts: with_contract(before[at as int].contracts, added),
                }));
            }
            let ghost replaced = entry;
            files.insert(at, entry);
            proof {
                assert(files@ =~= entries.update(at as int, replaced));
                assert(files@.map_values(|entry: FileArtifacts| entry@) =~= before.update(
                    at as int,
                    replaced@,
                ));
            }
        } else {
            let mut contracts: Vec<CompiledArtifact> = Vec::new();
            contracts.push(artifact);
            proof {
                assert(artifact_views(contracts@) =~= seq![added]);
            }
            let entry = FileArtifacts { file: file.to_owned(), contracts };
            let ghost pushed = entry;
            files.push(entry);
            proof {
                assert(files@.map_values(|entry: FileArtifacts| entry@) =~= before.push(pushed@));
            }
        }
        self.files = files;
    }
}

/// The place of a name among the contracts of a file.
fn find_slot(contracts: &Vec<CompiledArtifact>, name: &str) -> (at: usize)
    ensures
        at <= contracts.len(),
        at == contract_slot(artifact_views(contracts@), name@),
{
    let ghost views = artifact_views(contracts@);
    let mut at: usize = 0;
    proof {
        assert(views.skip(0) =~= views);
    }
    while at < contracts.len() && text_precedes(contracts[at].name.as_str(), name)
        invariant
            at <= contracts.len(),
            views == artifact_views(contracts@),
            contract_slot(views, name@) == at + contract_slot(views.skip(at as int), name@),
        decreases contracts.len() - at,
    {
        proof {
            assert(views.skip(at as int).skip(1) =~= views.skip(at + 1));
        }
        at += 1;
    }
    at
}

/// The bytecodes of the contracts of one file, in their order: for each
/// contract with linked bytecode, its name and the bytecode in hexadecimal.
pub fn bytecodes_in(contracts: &Vec<CompiledArtifact>) -> (bytecodes: Vec<(String, String)>)
    ensures
        pair_views(bytecodes@) == bytecodes_of(artifact_views(contracts@)),
{
    let ghost views = artifact_views(contracts@);
    let ghost pick = |artifact: ArtifactView| bytecode_of(artifact);
    let mut bytecodes: Vec<(String, String)> = Vec::new();
    let mut i: usize = 0;
    proof {
        assert(views.take(0).filter_map(pick) =~= Seq::<(Seq<char>, Seq<char>)>::empty());
        assert(pair_views(bytecodes@) =~= Seq::<(Seq<char>, Seq<char>)>::empty());
    }
    while i < contracts.len()
        invariant
            i <= contracts.len(),
            views == artifact_views(contracts@),
            pick == (|artifact: ArtifactView| bytecode_of(artifact)),
            pair_views(bytecodes@) == views.take(i as int).filter_map(pick),
        decreases contracts.len() - i,
    {
        let ghost before = pair_views(bytecodes@);
        proof {
            views.lemma_filter_map_take_succ(pick, i as int);
        }
        match &contracts[i].code {
            ContractCode::Linked(bytes) => {
                let name = contracts[i].name.clone();
                let code = hex_encode(bytes);
                bytecodes.push((name, code));
                proof {
                    assert(pair_views(bytecodes@) =~= before.push(
                        (contracts@[i as int].name@, hex_lower(bytes@)),
                    ));
                }
            },
            _ => {},
        }
        i += 1;
    }
    proof {
        assert(views.take(contracts@.len() as int) =~= views);
    }
    bytecodes
}

/// The usable bytecode that the compiler made of one source file: for each
/// contract registered under the file that has linked bytecode, its name
/// and the bytecode in hexadecimal, in the order of the names. `None` where
/// that list is empty, be it that the map does not know the file, that the
/// file has no contract, or that none of its contracts is linked; this is an
/// answer, not a failure.
pub fn get_contracts_bytecodes(contracts: &ArtifactMap, filename: &str) -> (bytecodes: Option<
    Vec<(String, String)>,
>)
    ensures
        match bytecodes {
            Some(pairs) => pairs@.len() > 0 && pair_views(pairs@) == bytecodes_of(
                contracts_of(contracts@, filename@),
            ) && forall|i: int, j: int|
                0 <= i < j < pairs@.len() ==> precedes(
                    (#[trigger] pairs@[i]).0@,
                    (#[trigger] pairs@[j]).0@,
                ),
            None => bytecodes_of(contracts_of(contracts@, filename@)).len() == 0,
        },
{
    match contracts.contracts_in(filename) {
        Some(file_contracts) => {
            let bytecodes = bytecodes_in(file_contracts);
            proof {
                let views = artifact_views(file_contracts@);
                assert forall|i: int, j: int| 0 <= i < j < bytecodes@.len() implies precedes(
                    (#[trigger] bytecodes@[i]).0@,
                    (#[trigger] bytecodes@[j]).0@,
                ) by {
                    lemma_bytecodes_in_name_order(views, i, j);
                    assert(pair_views(bytecodes@)[i].0 == bytecodes@[i].0@);
                    assert(pair_views(bytecodes@)[j].0 == bytecodes@[j].0@);
                }
            }
            if bytecodes.len() > 0 {
                Some(bytecodes)
            } else {
                None
            }
        },
        None => {
            proof {
                assert(Seq::<ArtifactView>::empty().filter_map(
                    |artifact: ArtifactView| bytecode_of(artifact),
                ) =~= Seq::<(Seq<char>, Seq<char>)>::empty());
            }
            None
        },
    }
}

} // verus!
