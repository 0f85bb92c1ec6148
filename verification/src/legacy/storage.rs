use vstd::prelude::*;

verus! {

/// A key-value store with column families and snapshots, for stores to implement.
pub trait StorageEngine {
    /// Stores `value` under `key` in column family `cf`.
    fn put_bytes(&mut self, cf: &str, key: &[u8], value: &[u8]) -> Result<(), String>;

    /// The value under `key` in column family `cf`, if any.
    fn get_bytes(&self, cf: &str, key: &[u8]) -> Result<Option<Vec<u8>>, String>;

    /// Deletes `key` from column family `cf`.
    fn delete_bytes(&mut self, cf: &str, key: &[u8]) -> Result<(), String>;

    /// The entries of column family `cf` whose key starts with `prefix`.
    fn scan_prefix_bytes(&self, cf: &str, prefix: &[u8]) -> Result<Vec<(Vec<u8>, Vec<u8>)>, String>;

    /// Stores each pair in column family `cf`.
    fn batch_write_bytes(&mut self, cf: &str, pairs: Vec<(Vec<u8>, Vec<u8>)>) -> Result<(), String>;

    /// Writes a snapshot to `path`.
    fn create_snapshot(&self, path: &str) -> Result<(), String>;

    /// Restores the store from the snapshot at `path`.
    fn restore_from_snapshot(&mut self, path: &str) -> Result<(), String>;
}

} // verus!
