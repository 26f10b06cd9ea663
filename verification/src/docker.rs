//! Argument vectors for the `docker` commands run during teardown.
use vstd::prelude::*;
use crate::text::words;

verus! {

/// `stop <name>`: the arguments that stop the named container.
pub open spec fn docker_stop_words(name: Seq<char>) -> Seq<Seq<char>> {
    seq!["stop"@, name]
}

/// `docker stop <name>` argv (without the leading `docker`).
pub fn docker_stop_argv(name: &str) -> (argv: Vec<String>)
    ensures
        words(argv@) == docker_stop_words(name@),
        argv@.len() == 2,
        argv@[0]@ == "stop"@,
        argv@[1]@ == name@,
{
    let mut argv: Vec<String> = Vec::new();
    argv.push(String::from_str("stop"));
    argv.push(name.to_owned());
    assert(words(argv@) =~= docker_stop_words(name@));
    argv
}

/// Law: teardown stops the container by the very name it was given, and
/// with nothing else: the arguments are `stop` and the name, verbatim.
pub proof fn lemma_docker_stop_names_container(name: Seq<char>)
    ensures
        docker_stop_words(name).len() == 2,
        docker_stop_words(name)[0] == "stop"@,
        docker_stop_words(name)[1] == name,
{
}

} // verus!
