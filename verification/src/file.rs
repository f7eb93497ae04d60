use vstd::prelude::*;
use crate::user::texts;

verus! {

/// What a file record holds, as mathematical values.
pub struct FileView {
    pub name: Seq<char>,
    pub connections: Seq<Seq<char>>,
}

/// The file record after `add_connection` was called with each of `names`,
/// in order.
pub open spec fn connections_added(file: FileView, names: Seq<Seq<char>>) -> FileView
    decreases names.len(),
{
    if names.len() == 0 {
        file
    } else {
        let before = connections_added(file, names.drop_last());
        FileView { connections: before.connections.push(names.last()), ..before }
    }
}

/// After a run of `add_connection` calls, a file's relations are the ones it
/// had followed by every added name, in call order, duplicates kept; its name
/// is unchanged.
pub proof fn lemma_connections_in_call_order(file: FileView, names: Seq<Seq<char>>)
    ensures
        connections_added(file, names) == (FileView {
            connections: file.connections + names,
            ..file
        }),
    decreases names.len(),
{
    if names.len() > 0 {
        lemma_connections_in_call_order(file, names.drop_last());
        assert(file.connections + names.drop_last() + seq![names.last()] =~= file.connections
            + names);
        assert((file.connections + names.drop_last()).push(names.last()) =~= file.connections
            + names);
    } else {
        assert(file.connections + names =~= file.connections);
    }
}

/// A file known to the server, with the names of the files related to it.
#[derive(Debug)]
pub struct File {
    name: String,
    connections: Vec<String>,
}

impl View for File {
    type V = FileView;

    closed spec fn view(&self) -> FileView {
        FileView { name: self.name@, connections: texts(self.connections@) }
    }
}

impl File {
    /// Creates a file record with no relations.
    pub fn new(file_name: String) -> (file: File)
        ensures
            file@.name == file_name@,
            file@.connections == Seq::<Seq<char>>::empty(),
    {
        let file = File { name: file_name, connections: Vec::new() };
        assert(file@.connections =~= Seq::<Seq<char>>::empty());
        file
    }

    /// Whether the file bears exactly that name.
    pub fn is_named(&self, name: &str) -> (same: bool)
        ensures
            same == (self@.name == name@),
    {
        let other: String = name.to_owned();
        self.name.eq(&other)
    }

    /// Records a relation to another file, after those already there.
    pub fn add_connection(&mut self, other_file: &str)
        ensures
            final(self)@ == (FileView {
                connections: old(self)@.connections.push(other_file@),
                ..old(self)@
            }),
    {
        let other: String = other_file.to_owned();
        self.connections.push(other);
        assert(texts(self.connections@) =~= old(self)@.connections.push(other_file@));
    }

    pub fn get_connections(&self) -> (connections: &Vec<String>)
        ensures
            texts(connections@) == self@.connections,
    {
        &self.connections
    }
}

} // verus!
