use vstd::prelude::*;

verus! {

/// What a user record holds, as mathematical values.
pub struct UserView {
    pub username: Seq<char>,
    pub password: Seq<char>,
    pub files: Seq<Seq<char>>,
}

/// The text of each string in `names`, in order.
pub open spec fn texts(names: Seq<String>) -> Seq<Seq<char>> {
    names.map_values(|name: String| name@)
}

/// `index` is the first position of `name` in `files`.
pub open spec fn is_first_index(files: Seq<Seq<char>>, name: Seq<char>, index: int) -> bool {
    &&& 0 <= index < files.len()
    &&& files[index] == name
    &&& forall|j: int| 0 <= j < index ==> files[j] != name
}

/// `after` is `before` with the first occurrence of `name` taken out.
pub open spec fn first_removed(before: Seq<Seq<char>>, name: Seq<char>, after: Seq<Seq<char>>) -> bool {
    exists|index: int| is_first_index(before, name, index) && after == before.remove(index)
}

/// One change made to a user record through its methods.
pub enum UserStep {
    SetUsername(Seq<char>),
    SetPassword(Seq<char>),
    AddFile(Seq<char>),
    DeleteFile(Seq<char>),
}

/// `after` is a record that the change `step` can leave behind from
/// `before`, as the methods' contracts state it.
pub open spec fn user_step(before: UserView, step: UserStep, after: UserView) -> bool {
    match step {
        UserStep::SetUsername(name) => after == UserView { username: name, ..before },
        UserStep::SetPassword(password) => after == UserView { password, ..before },
        UserStep::AddFile(name) => after == UserView { files: before.files.push(name), ..before },
        UserStep::DeleteFile(name) => {
            &&& after.username == before.username
            &&& after.password == before.password
            &&& before.files.contains(name) ==> first_removed(before.files, name, after.files)
            &&& !before.files.contains(name) ==> after == before
        },
    }
}

/// `states` are the records a run of `steps` passes through, first to last.
pub open spec fn user_run(states: Seq<UserView>, steps: Seq<UserStep>) -> bool {
    &&& states.len() == steps.len() + 1
    &&& forall|i: int| 0 <= i < steps.len() ==> user_step(states[i], #[trigger] steps[i], states[i + 1])
}

/// The username set by the last `SetUsername` of a run, or `initial`.
pub open spec fn last_username(initial: Seq<char>, steps: Seq<UserStep>) -> Seq<char>
    decreases steps.len(),
{
    if steps.len() == 0 {
        initial
    } else {
        match steps.last() {
            UserStep::SetUsername(name) => name,
            _ => last_username(initial, steps.drop_last()),
        }
    }
}

/// The password set by the last `SetPassword` of a run, or `initial`.
pub open spec fn last_password(initial: Seq<char>, steps: Seq<UserStep>) -> Seq<char>
    decreases steps.len(),
{
    if steps.len() == 0 {
        initial
    } else {
        match steps.last() {
            UserStep::SetPassword(password) => password,
            _ => last_password(initial, steps.drop_last()),
        }
    }
}

/// After any run of changes, a user's username and password are the ones
/// last set (or the ones it had), verbatim: adding and deleting files never
/// touches them, and each setter leaves the other credential alone.
pub proof fn lemma_credentials_are_last_set(states: Seq<UserView>, steps: Seq<UserStep>)
    requires
        user_run(states, steps),
    ensures
        states.last().username == last_username(states[0].username, steps),
        states.last().password == last_password(states[0].password, steps),
    decreases steps.len(),
{
    if steps.len() > 0 {
        let k = steps.len() - 1;
        let front = states.drop_last();
        assert(user_run(front, steps.drop_last())) by {
            assert forall|i: int| 0 <= i < steps.drop_last().len() implies user_step(
                front[i],
                #[trigger] steps.drop_last()[i],
                front[i + 1],
            ) by {
                assert(user_step(states[i], steps[i], states[i + 1]));
            }
        }
        lemma_credentials_are_last_set(front, steps.drop_last());
        assert(user_step(states[k], steps[k], states[k + 1]));
        assert(front.last() == states[k]);
    }
}

/// A registered user: credentials and the names of the user's files.
#[derive(Debug)]
pub struct User {
    username: String,
    password: String,
    files: Vec<String>,
}

impl View for User {
    type V = UserView;

    closed spec fn view(&self) -> UserView {
        UserView { username: self.username@, password: self.password@, files: texts(self.files@) }
    }
}

impl User {
    /// Creates a user with the given credentials and no files.
    pub fn new(username: String, password: String) -> (user: User)
        ensures
            user@.username == username@,
            user@.password == password@,
            user@.files == Seq::<Seq<char>>::empty(),
    {
        let user = User { username, password, files: Vec::new() };
        assert(user@.files =~= Seq::<Seq<char>>::empty());
        user
    }

    pub fn get_username(&self) -> (name: &str)
        ensures
            name@ == self@.username,
    {
        self.username.as_str()
    }

    pub fn set_username(&mut self, username: String)
        ensures
            final(self)@ == (UserView { username: username@, ..old(self)@ }),
    {
        self.username = username;
    }

    pub fn get_password(&self) -> (password: &str)
        ensures
            password@ == self@.password,
    {
        self.password.as_str()
    }

    pub fn set_password(&mut self, password: String)
        ensures
            final(self)@ == (UserView { password: password@, ..old(self)@ }),
    {
        self.password = password;
    }

    pub fn get_files(&self) -> (files: &Vec<String>)
        ensures
            texts(files@) == self@.files,
    {
        &self.files
    }

    /// The name of the file at `index`; the index must be in range.
    pub fn get_file(&self, index: usize) -> (file: &String)
        requires
            index < self@.files.len(),
        ensures
            file@ == self@.files[index as int],
    {
        &self.files[index]
    }

    /// Adds a file name after those already there.
    pub fn add_file(&mut self, file_name: String)
        ensures
            final(self)@ == (UserView { files: old(self)@.files.push(file_name@), ..old(self)@ }),
    {
        let ghost name = file_name@;
        self.files.push(file_name);
        assert(texts(self.files@) =~= old(self)@.files.push(name));
    }

    /// Removes the first file of that name; `Err` where there is none, and
    /// then nothing changes.
    pub fn delete_file(&mut self, name: &String) -> (r: Result<(), ()>)
        ensures
            r is Ok <==> old(self)@.files.contains(name@),
            r is Ok ==> first_removed(old(self)@.files, name@, final(self)@.files),
            final(self)@.username == old(self)@.username,
            final(self)@.password == old(self)@.password,
            r is Err ==> final(self)@ == old(self)@,
    {
        let n = self.files.len();
        let mut index: usize = 0;
        while index < n
            invariant
                n == self.files@.len(),
                index <= n,
                self@ == old(self)@,
                forall|j: int| 0 <= j < index ==> self@.files[j] != name@,
            decreases n - index,
        {
            assert(self@.files[index as int] == self.files@[index as int]@);
            if self.files[index].eq(name) {
                let ghost before = self@.files;
                self.files.remove(index);
                assert(texts(self.files@) =~= before.remove(index as int));
                assert(is_first_index(before, name@, index as int));
                return Ok(());
            }
            index = index + 1;
        }
        assert(!old(self)@.files.contains(name@)) by {
            if old(self)@.files.contains(name@) {
                let j = choose|j: int| 0 <= j < old(self)@.files.len() && old(self)@.files[j] == name@;
                assert(self@.files[j] != name@);
            }
        }
        Err(())
    }
}

/// Deleting a file name just added, where the user had no file of that name
/// before, gives back the list of files the user had.
pub proof fn lemma_delete_undoes_add(files: Seq<Seq<char>>, name: Seq<char>, after: Seq<Seq<char>>)
    requires
        !files.contains(name),
        first_removed(files.push(name), name, after),
    ensures
        after == files,
{
    let index = choose|index: int|
        is_first_index(files.push(name), name, index) && after == files.push(name).remove(index);
    if index < files.len() {
        assert(files[index] == name);
    }
    assert(files.push(name).remove(files.len() as int) =~= files);
}

/// A name just added is always there to delete.
pub proof fn lemma_added_file_is_present(files: Seq<Seq<char>>, name: Seq<char>)
    ensures
        files.push(name).contains(name),
{
    assert(files.push(name)[files.len() as int] == name);
}

} // verus!
