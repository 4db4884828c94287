//! Process configuration, built once at start-up and passed by reference.
use vstd::prelude::*;
use std::collections::HashSet;

verus! {

broadcast use vstd::std_specs::hash::group_hash_axioms;

/// Settings of the bot.
pub struct Config {
    pub private_key_path: String,
    pub file_hosting_url: String,
    pub app_id: u64,
    /// Repositories whose pull requests are not processed.
    pub blacklist: HashSet<u64>,
    pub blacklist_contact: String,
}

/// Builds the configuration from its settings; the blacklist holds exactly
/// the listed repository ids.
pub fn init_config(
    private_key_path: String,
    file_hosting_url: String,
    app_id: u64,
    blacklist: &Vec<u64>,
    blacklist_contact: String,
) -> (r: Config)
    ensures
        r.private_key_path == private_key_path,
        r.file_hosting_url == file_hosting_url,
        r.app_id == app_id,
        r.blacklist@ == blacklist@.to_set(),
        r.blacklist_contact == blacklist_contact,
{
    let mut set: HashSet<u64> = HashSet::new();
    let mut i: usize = 0;
    while i < blacklist.len()
        invariant
            i <= blacklist.len(),
            set@ == blacklist@.take(i as int).to_set(),
        decreases blacklist.len() - i,
    {
        set.insert(blacklist[i]);
        proof {
            assert(blacklist@.take(i + 1) =~= blacklist@.take(i as int) + seq![blacklist@[i as int]]);
            Seq::lemma_to_set_insert_commutes(blacklist@.take(i as int), blacklist@[i as int]);
        }
        i = i + 1;
    }
    assert(blacklist@.take(i as int) =~= blacklist@);
    Config { private_key_path, file_hosting_url, app_id, blacklist: set, blacklist_contact }
}

impl Config {
    /// Whether the repository `repo_id` is on the blacklist.
    pub fn is_blacklisted(&self, repo_id: u64) -> (r: bool)
        ensures
            r == self.blacklist@.contains(repo_id),
    {
        self.blacklist.contains(&repo_id)
    }
}

} // verus!
