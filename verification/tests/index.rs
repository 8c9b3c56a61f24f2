use soroban_sdk::testutils::storage::Persistent;
use soroban_sdk::testutils::{ContractFunctionSet, EnvTestConfig, Ledger};
use soroban_sdk::{Env, String as HostString, Symbol, Val, Vec as HostVec};
use trustbridge_storage::storage::{
    add_to_index, compact_chunked_index, get_chunk, get_chunk_count, get_index, get_index_page,
    remove_from_index, set_chunk, set_chunk_count, set_index,
};
use trustbridge_storage::storage::{
    CHUNK_CNT_KEY, CHUNK_KEY, CHUNK_SIZE, DEFAULT_PAGE_LIMIT, INDEX_KEY, MAX_PAGE_LIMIT,
    TTL_BUMP,
};
use trustbridge_storage::usernames::UsernameList;

struct Registry;

impl ContractFunctionSet for Registry {
    fn call(&self, _func: &str, _env: Env, _args: &[Val]) -> Option<Val> {
        None
    }
}

fn run(f: impl FnOnce(&mut Env)) {
    let env = Env::new_with_config(EnvTestConfig { capture_snapshot_at_drop: false });
    let id = env.register(Registry, ());
    let mut inner = env.clone();
    env.as_contract(&id, || f(&mut inner));
}

fn name(i: u32) -> Vec<u8> {
    format!("user{i}").into_bytes()
}

fn fill(env: &mut Env, n: u32) {
    for i in 0..n {
        add_to_index(env, &name(i));
    }
}

fn all(list: &UsernameList) -> Vec<Vec<u8>> {
    (0..list.len()).map(|i| list.get(i).unwrap()).collect()
}

fn list_of(env: &Env, names: &[&[u8]]) -> UsernameList {
    let mut list = UsernameList::new(env);
    for name in names {
        list.push_back(name);
    }
    list
}

#[test]
fn flat_index_is_read_back() {
    run(|env| {
        assert_eq!(get_index(env).len(), 0);
        assert!(get_index(env).is_empty());
        let list = list_of(env, &[b"alice", b"bob"]);
        set_index(env, &list);
        let index = get_index(env);
        assert_eq!(index.len(), 2);
        assert!(!index.is_empty());
        assert_eq!(index.get(0), Some(b"alice".to_vec()));
        assert_eq!(index.get(1), Some(b"bob".to_vec()));
        assert_eq!(index.get(2), None);
    });
}

#[test]
fn chunks_are_read_back_apart() {
    run(|env| {
        let list = list_of(env, &[b"alice", b"bob"]);
        let other = list_of(env, &[b"carol"]);
        set_chunk(env, 3, &list);
        set_chunk(env, 4, &other);
        assert_eq!(all(&list), [b"alice".to_vec(), b"bob".to_vec()]);
        let chunk = get_chunk(env, 3);
        assert_eq!(all(&chunk), [b"alice".to_vec(), b"bob".to_vec()]);
        let chunk = get_chunk(env, 4);
        assert_eq!(all(&chunk), [b"carol".to_vec()]);
        assert_eq!(get_chunk(env, 5).len(), 0);
        assert_eq!(get_index(env).len(), 0);
    });
}

#[test]
fn chunk_count_starts_at_zero_and_is_read_back() {
    run(|env| {
        assert_eq!(get_chunk_count(env), 0);
        set_chunk_count(env, 7);
        assert_eq!(get_chunk_count(env), 7);
    });
}

#[test]
fn entries_are_laid_out_under_their_keys() {
    run(|env| {
        add_to_index(env, b"alice");
        let expected = HostVec::from_array(env, [HostString::from_str(env, "alice")]);
        let index: HostVec<HostString> = env
            .storage()
            .instance()
            .get(&Symbol::new(env, INDEX_KEY))
            .unwrap();
        assert_eq!(index, expected);
        let chunk: HostVec<HostString> = env
            .storage()
            .persistent()
            .get(&(Symbol::new(env, CHUNK_KEY), 0u32))
            .unwrap();
        assert_eq!(chunk, expected);
        let count: u32 = env
            .storage()
            .instance()
            .get(&Symbol::new(env, CHUNK_CNT_KEY))
            .unwrap();
        assert_eq!(count, 1);
    });
}

#[test]
fn index_written_by_the_host_is_read() {
    run(|env| {
        let names = [HostString::from_str(env, "a"), HostString::from_str(env, "b")];
        env.storage()
            .instance()
            .set(&Symbol::new(env, "idx"), &HostVec::from_array(env, names));
        let index = get_index(env);
        assert_eq!(all(&index), [b"a".to_vec(), b"b".to_vec()]);
    });
}

#[test]
fn the_next_chunk_starts_when_one_is_full() {
    run(|env| {
        fill(env, CHUNK_SIZE);
        assert_eq!(get_chunk_count(env), 1);
        assert_eq!(get_chunk(env, 0).len(), CHUNK_SIZE);
        add_to_index(env, b"next");
        assert_eq!(get_chunk_count(env), 2);
        assert_eq!(get_chunk(env, 0).len(), CHUNK_SIZE);
        let chunk = get_chunk(env, 1);
        assert_eq!(all(&chunk), [b"next".to_vec()]);
        assert_eq!(get_index(env).len(), CHUNK_SIZE + 1);
    });
}

#[test]
fn chunks_agree_with_the_flat_index() {
    run(|env| {
        fill(env, 2 * CHUNK_SIZE + 3);
        let mut chained = Vec::new();
        for c in 0..get_chunk_count(env) {
            let chunk = get_chunk(env, c);
            chained.extend(all(&chunk));
        }
        let index = get_index(env);
        assert_eq!(all(&index), chained);
        assert_eq!(get_chunk_count(env), 3);
    });
}

#[test]
fn removal_takes_the_username_out_of_both_indexes() {
    run(|env| {
        fill(env, CHUNK_SIZE + 2);
        remove_from_index(env, &name(1));
        let index = get_index(env);
        assert_eq!(index.len(), CHUNK_SIZE + 1);
        assert!(!all(&index).contains(&name(1)));
        let chunk = get_chunk(env, 0);
        assert_eq!(chunk.len(), CHUNK_SIZE - 1);
        assert_eq!(chunk.get(1), Some(name(2)));
        assert_eq!(get_chunk(env, 1).len(), 2);
        remove_from_index(env, &name(51));
        assert_eq!(get_chunk(env, 1).len(), 1);
        assert_eq!(get_chunk_count(env), 2);
    });
}

#[test]
fn removal_of_an_unknown_username_changes_nothing() {
    run(|env| {
        fill(env, 3);
        remove_from_index(env, b"nobody");
        let index = get_index(env);
        assert_eq!(all(&index), [name(0), name(1), name(2)]);
        assert_eq!(get_chunk(env, 0).len(), 3);
        assert_eq!(get_chunk_count(env), 1);
    });
}

#[test]
fn a_removal_that_removes_nothing_keeps_empty_chunks() {
    run(|env| {
        let empty = list_of(env, &[]);
        set_index(env, &empty);
        set_chunk(env, 0, &empty);
        set_chunk_count(env, 1);
        remove_from_index(env, b"nobody");
        assert_eq!(get_index(env).len(), 0);
        assert_eq!(get_chunk_count(env), 1);
        assert!(env.storage().persistent().has(&(Symbol::new(env, CHUNK_KEY), 0u32)));
    });
}

#[test]
fn a_removal_leaves_the_lifetime_of_later_chunks() {
    run(|env| {
        let keys = [0u32, 1, 2, 3].map(|c| (Symbol::new(env, CHUNK_KEY), c));
        let index = list_of(env, &[b"a", b"u", b"b", b"u", b"c"]);
        let chunks = [
            list_of(env, &[b"a"]),
            list_of(env, &[b"u"]),
            list_of(env, &[b"b"]),
            list_of(env, &[b"u", b"c"]),
        ];
        set_index(env, &index);
        for (c, chunk) in chunks.iter().enumerate() {
            set_chunk(env, c as u32, chunk);
        }
        set_chunk_count(env, 4);
        env.ledger().set_sequence_number(TTL_BUMP - 10);
        remove_from_index(env, b"u");
        let ttls = keys.map(|key| env.storage().persistent().get_ttl(&key));
        assert_eq!(ttls, [TTL_BUMP, TTL_BUMP, 10, TTL_BUMP]);
        assert_eq!(get_chunk(env, 1).len(), 0);
        assert_eq!(all(&get_chunk(env, 2)), [b"b".to_vec()]);
        assert_eq!(all(&get_chunk(env, 3)), [b"c".to_vec()]);
        assert_eq!(get_chunk_count(env), 4);
    });
}

#[test]
fn removal_takes_every_occurrence_out_of_every_chunk() {
    run(|env| {
        let index = list_of(env, &[b"a", b"b", b"a"]);
        let first = list_of(env, &[b"a", b"b"]);
        let second = list_of(env, &[b"a"]);
        set_index(env, &index);
        set_chunk(env, 0, &first);
        set_chunk(env, 1, &second);
        set_chunk_count(env, 2);
        remove_from_index(env, b"a");
        assert_eq!(all(&get_index(env)), [b"b".to_vec()]);
        assert_eq!(all(&get_chunk(env, 0)), [b"b".to_vec()]);
        assert_eq!(get_chunk(env, 1).len(), 0);
        assert_eq!(get_chunk_count(env), 2);
    });
}

#[test]
fn chunks_that_hold_something_are_kept_by_a_removal() {
    run(|env| {
        let index = list_of(env, &[b"a"]);
        let stray = list_of(env, &[b"x"]);
        set_index(env, &index);
        set_chunk(env, 0, &index);
        set_chunk(env, 1, &stray);
        set_chunk_count(env, 2);
        remove_from_index(env, b"a");
        assert_eq!(get_index(env).len(), 0);
        assert_eq!(get_chunk_count(env), 2);
        assert_eq!(all(&get_chunk(env, 1)), [b"x".to_vec()]);
    });
}

#[test]
fn usernames_are_told_apart_by_case_in_the_index() {
    run(|env| {
        add_to_index(env, b"Alice");
        add_to_index(env, b"alice");
        remove_from_index(env, b"alice");
        let index = get_index(env);
        assert_eq!(all(&index), [b"Alice".to_vec()]);
    });
}

#[test]
fn removing_what_was_added_undoes_it() {
    run(|env| {
        fill(env, CHUNK_SIZE);
        add_to_index(env, b"extra");
        remove_from_index(env, b"extra");
        assert_eq!(get_index(env).len(), CHUNK_SIZE);
        assert_eq!(get_chunk(env, 0).len(), CHUNK_SIZE);
        assert_eq!(get_chunk(env, 1).len(), 0);
    });
}

#[test]
fn removing_the_last_username_leaves_an_empty_registry() {
    run(|env| {
        add_to_index(env, b"alice");
        remove_from_index(env, b"alice");
        assert_eq!(get_index(env).len(), 0);
        assert_eq!(get_chunk(env, 0).len(), 0);
        assert_eq!(get_index_page(env, 0, 0).len(), 0);
        add_to_index(env, b"bob");
        let index = get_index(env);
        assert_eq!(all(&index), [b"bob".to_vec()]);
        let chunk = get_chunk(env, 0);
        assert_eq!(all(&chunk), [b"bob".to_vec()]);
        assert_eq!(get_chunk_count(env), 1);
    });
}

#[test]
fn page_limits_default_and_are_clamped() {
    run(|env| {
        fill(env, MAX_PAGE_LIMIT + 5);
        assert_eq!(get_index_page(env, 0, 0).len(), DEFAULT_PAGE_LIMIT);
        assert_eq!(get_index_page(env, 0, 1).len(), 1);
        assert_eq!(get_index_page(env, 0, MAX_PAGE_LIMIT).len(), MAX_PAGE_LIMIT);
        assert_eq!(get_index_page(env, 0, MAX_PAGE_LIMIT + 1).len(), MAX_PAGE_LIMIT);
        assert_eq!(get_index_page(env, 0, u32::MAX).len(), MAX_PAGE_LIMIT);
        assert_eq!(get_index_page(env, MAX_PAGE_LIMIT, 0).len(), 5);
        assert_eq!(get_index_page(env, MAX_PAGE_LIMIT + 5, 0).len(), 0);
        assert_eq!(get_index_page(env, u32::MAX, u32::MAX).len(), 0);
        let page = get_index_page(env, 100, 3);
        assert_eq!(all(&page), [name(100), name(101), name(102)]);
    });
}

#[test]
fn pages_cover_the_index() {
    run(|env| {
        fill(env, 23);
        let mut seen = Vec::new();
        for offset in [0, 10, 20] {
            let page = get_index_page(env, offset, 10);
            seen.extend(all(&page));
        }
        let index = get_index(env);
        assert_eq!(seen, all(&index));
    });
}

#[test]
fn compaction_fills_the_chunks() {
    run(|env| {
        fill(env, 3 * CHUNK_SIZE);
        for i in 0..60 {
            remove_from_index(env, &name(i));
        }
        assert_eq!(get_chunk(env, 0).len(), 0);
        assert_eq!(get_chunk(env, 1).len(), 40);
        let index = get_index(env);
        let before = all(&index);
        assert_eq!(compact_chunked_index(env), 2);
        assert_eq!(get_chunk_count(env), 2);
        assert_eq!(get_chunk(env, 0).len(), CHUNK_SIZE);
        assert_eq!(get_chunk(env, 1).len(), 40);
        assert!(!env.storage().persistent().has(&(Symbol::new(env, CHUNK_KEY), 2u32)));
        let index = get_index(env);
        assert_eq!(all(&index), before);
        let chunk = get_chunk(env, 1);
        assert_eq!(chunk.get(0), Some(name(110)));
    });
}

#[test]
fn compaction_of_nothing_leaves_no_chunk() {
    run(|env| {
        assert_eq!(compact_chunked_index(env), 0);
        add_to_index(env, b"alice");
        remove_from_index(env, b"alice");
        assert_eq!(compact_chunked_index(env), 0);
        assert_eq!(get_chunk_count(env), 0);
        assert!(!env.storage().persistent().has(&(Symbol::new(env, CHUNK_KEY), 0u32)));
    });
}

#[test]
fn compaction_counts_whole_and_partial_chunks() {
    run(|env| {
        fill(env, CHUNK_SIZE);
        assert_eq!(compact_chunked_index(env), 1);
        add_to_index(env, b"one more");
        assert_eq!(compact_chunked_index(env), 2);
        assert_eq!(get_chunk(env, 1).len(), 1);
    });
}

#[test]
fn a_chunk_is_renewed_by_a_read_unless_it_is_empty() {
    run(|env| {
        let key = |c: u32| (Symbol::new(env, CHUNK_KEY), c);
        let keys = [key(0), key(1)];
        let filled = list_of(env, &[b"alice"]);
        let empty = list_of(env, &[]);
        set_chunk(env, 0, &filled);
        set_chunk(env, 1, &empty);
        assert_eq!(env.storage().persistent().get_ttl(&keys[0]), TTL_BUMP);
        assert_eq!(env.storage().persistent().get_ttl(&keys[1]), TTL_BUMP);
        env.ledger().set_sequence_number(TTL_BUMP - 10);
        get_chunk(env, 0);
        get_chunk(env, 1);
        assert_eq!(env.storage().persistent().get_ttl(&keys[0]), TTL_BUMP);
        assert_eq!(env.storage().persistent().get_ttl(&keys[1]), 10);
    });
}

#[test]
fn after_several_chunks_an_empty_registry_starts_anew() {
    run(|env| {
        fill(env, CHUNK_SIZE + 1);
        for i in 0..CHUNK_SIZE + 1 {
            remove_from_index(env, &name(i));
        }
        assert_eq!(get_index(env).len(), 0);
        assert_eq!(get_chunk_count(env), 0);
        for c in 0..2u32 {
            assert!(!env.storage().persistent().has(&(Symbol::new(env, CHUNK_KEY), c)));
        }
        add_to_index(env, b"bob");
        assert_eq!(all(&get_index(env)), [b"bob".to_vec()]);
        assert_eq!(get_chunk_count(env), 1);
        assert_eq!(all(&get_chunk(env, 0)), [b"bob".to_vec()]);
        assert_eq!(get_chunk(env, 1).len(), 0);
    });
}

#[test]
fn a_sparse_registry_that_becomes_empty_starts_anew() {
    run(|env| {
        let index = list_of(env, &[b"a"]);
        let empty = list_of(env, &[]);
        set_index(env, &index);
        set_chunk(env, 0, &empty);
        set_chunk(env, 1, &index);
        set_chunk_count(env, 2);
        remove_from_index(env, b"a");
        add_to_index(env, b"z");
        assert_eq!(all(&get_index(env)), [b"z".to_vec()]);
        assert_eq!(get_chunk_count(env), 1);
        assert_eq!(all(&get_chunk(env, 0)), [b"z".to_vec()]);
    });
}

#[test]
fn removal_undoes_an_addition_where_the_indexes_differ() {
    run(|env| {
        let stray = list_of(env, &[b"x", b"y"]);
        set_chunk(env, 0, &stray);
        set_chunk_count(env, 1);
        add_to_index(env, b"u");
        assert_eq!(get_chunk(env, 0).len(), 3);
        remove_from_index(env, b"u");
        assert_eq!(get_index(env).len(), 0);
        assert_eq!(get_chunk_count(env), 1);
        assert_eq!(all(&get_chunk(env, 0)), [b"x".to_vec(), b"y".to_vec()]);
    });
}

#[test]
fn a_dense_index_stays_dense_when_usernames_are_added() {
    run(|env| {
        for i in 0..2 * CHUNK_SIZE + 1 {
            add_to_index(env, &name(i));
            let count = get_chunk_count(env);
            let last = all(&get_chunk(env, count - 1));
            assert_eq!(compact_chunked_index(env), count);
            assert_eq!(all(&get_chunk(env, count - 1)), last);
        }
        assert_eq!(get_chunk_count(env), 3);
    });
}

#[test]
fn a_second_compaction_changes_nothing() {
    run(|env| {
        fill(env, CHUNK_SIZE + 10);
        for i in 0..20 {
            remove_from_index(env, &name(i));
        }
        assert_eq!(compact_chunked_index(env), 1);
        let key = (Symbol::new(env, CHUNK_KEY), 0u32);
        let ttl = env.storage().persistent().get_ttl(&key);
        let chunk = all(&get_chunk(env, 0));
        assert_eq!(chunk.len(), 40);
        assert_eq!(compact_chunked_index(env), 1);
        assert_eq!(get_chunk_count(env), 1);
        assert_eq!(all(&get_chunk(env, 0)), chunk);
        assert_eq!(env.storage().persistent().get_ttl(&key), ttl);
    });
}

#[test]
fn an_addition_appends_where_the_indexes_differ() {
    run(|env| {
        let index = list_of(env, &[b"a"]);
        let stray = list_of(env, &[b"x", b"y"]);
        set_index(env, &index);
        set_chunk(env, 0, &stray);
        set_chunk_count(env, 1);
        add_to_index(env, b"u");
        assert_eq!(all(&get_index(env)), [b"a".to_vec(), b"u".to_vec()]);
        assert_eq!(all(&get_chunk(env, 0)), [b"x".to_vec(), b"y".to_vec(), b"u".to_vec()]);
    });
}
