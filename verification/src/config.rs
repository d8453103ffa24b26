//! The configuration model: every tunable flows through these records;
//! nothing reads process globals. Loading them from disk is the
//! embedding program's job.

use vstd::prelude::*;

verus! {

pub struct Config {
    pub server: ServerConfig,
    pub encryption: EncryptionConfig,
    pub blockchain: BlockchainConfig,
    pub storage: StorageConfig,
    pub verification: VerificationConfig,
    pub logging: LoggingConfig,
}

pub struct ServerConfig {
    pub host: String,
    pub port: u16,
    pub max_connections: usize,
    pub request_timeout_ms: u64,
}

pub struct EncryptionConfig {
    pub primary_key_path: String,
    pub key_rotation_interval_seconds: u64,
    pub quantum_resistant: bool,
    pub hardware_backed: bool,
    pub compression_enabled: bool,
}

pub struct BlockchainConfig {
    pub ethereum: EthereumConfig,
    pub bitcoin: BitcoinConfig,
    pub private_chain: PrivateChainConfig,
    pub opentimestamps: OpenTimestampsConfig,
}

pub struct EthereumConfig {
    pub rpc_url: String,
    pub contract_address: Option<String>,
    pub gas_limit: u64,
    /// Gas price in whole gwei; carried as an integer so the record
    /// stays exact.
    pub gas_price_gwei: u64,
    pub confirmations_required: u64,
}

pub struct BitcoinConfig {
    pub rpc_url: String,
    pub wallet_name: String,
    pub fee_sat_per_byte: u64,
    pub confirmations_required: u64,
}

pub struct PrivateChainConfig {
    pub rpc_url: String,
    pub organization_id: String,
    pub consensus_mechanism: String,
}

pub struct OpenTimestampsConfig {
    pub enabled: bool,
    pub calendar_urls: Vec<String>,
    pub fallback_calendars: Vec<String>,
}

pub struct StorageConfig {
    pub database_path: String,
    pub ipfs: IPFSConfig,
    pub backup: BackupConfig,
    pub retention_days: u64,
}

pub struct IPFSConfig {
    pub enabled: bool,
    pub api_url: String,
    pub gateway_url: String,
    pub pin_enabled: bool,
}

pub struct BackupConfig {
    pub enabled: bool,
    pub backup_path: String,
    pub backup_interval_hours: u64,
    pub max_backups: u64,
}

pub struct VerificationConfig {
    pub strict_mode: bool,
    pub quantum_verification: bool,
    pub hardware_attestation: bool,
    pub min_confirmations: Vec<(String, u64)>,
    pub evidence_retention_years: u64,
}

pub struct LoggingConfig {
    pub level: String,
    pub file_path: Option<String>,
    pub max_file_size_mb: u64,
    pub max_files: u64,
}

/// Whether a configuration passes validation: a non-zero server port and
/// non-empty key path, chain endpoints, and database path.
pub open spec fn config_valid(c: &Config) -> bool {
    &&& c.server.port != 0
    &&& c.encryption.primary_key_path@.len() > 0
    &&& c.blockchain.ethereum.rpc_url@.len() > 0
    &&& c.blockchain.bitcoin.rpc_url@.len() > 0
    &&& c.storage.database_path@.len() > 0
}

impl Config {
    /// Checks the configuration, reporting the first violated rule.
    pub fn validate(&self) -> (r: Result<(), crate::error::ImmutableEncryptionError>)
        ensures
            r is Ok <==> config_valid(self),
    {
        if self.server.port == 0 {
            return Err(crate::error::ImmutableEncryptionError::config("server port cannot be 0"));
        }
        if self.encryption.primary_key_path.as_str().is_empty() {
            return Err(
                crate::error::ImmutableEncryptionError::config("primary key path cannot be empty"),
            );
        }
        if self.blockchain.ethereum.rpc_url.as_str().is_empty() {
            return Err(
                crate::error::ImmutableEncryptionError::config("ethereum RPC URL cannot be empty"),
            );
        }
        if self.blockchain.bitcoin.rpc_url.as_str().is_empty() {
            return Err(
                crate::error::ImmutableEncryptionError::config("bitcoin RPC URL cannot be empty"),
            );
        }
        if self.storage.database_path.as_str().is_empty() {
            return Err(
                crate::error::ImmutableEncryptionError::config("database path cannot be empty"),
            );
        }
        Ok(())
    }

    /// Derives the encryption engine's configuration. The primary key
    /// itself is loaded from the key path by the embedding program; here
    /// it is a placeholder of the right length.
    pub fn get_crypto_config(&self) -> (r: crate::crypto::CryptoConfig)
        ensures
            r.primary_key@ == Seq::new(32, |i: int| 0u8),
            r.key_rotation_interval == self.encryption.key_rotation_interval_seconds,
            r.quantum_resistant == self.encryption.quantum_resistant,
            r.hardware_backed == self.encryption.hardware_backed,
    {
        let mut key: Vec<u8> = Vec::new();
        for i in 0..32usize
            invariant
                key@.len() == i,
                forall|j: int| 0 <= j < i ==> key@[j] == 0u8,
        {
            key.push(0u8);
        }
        proof {
            assert(key@ =~= Seq::new(32, |i: int| 0u8));
        }
        crate::crypto::CryptoConfig {
            primary_key: key,
            key_rotation_interval: self.encryption.key_rotation_interval_seconds,
            quantum_resistant: self.encryption.quantum_resistant,
            hardware_backed: self.encryption.hardware_backed,
        }
    }

    /// Derives the chain adapters' configuration.
    pub fn get_blockchain_config(&self) -> (r: crate::blockchain::BlockchainConfig)
        ensures
            r.ethereum_rpc_url@ == self.blockchain.ethereum.rpc_url@,
            r.bitcoin_rpc_url@ == self.blockchain.bitcoin.rpc_url@,
            r.private_chain_rpc@ == self.blockchain.private_chain.rpc_url@,
            r.opentimestamps_url@ == (if self.blockchain.opentimestamps.calendar_urls@.len() > 0 {
                self.blockchain.opentimestamps.calendar_urls@[0]@
            } else {
                Seq::<char>::empty()
            }),
    {
        let opentimestamps_url = if self.blockchain.opentimestamps.calendar_urls.len() > 0 {
            self.blockchain.opentimestamps.calendar_urls[0].clone()
        } else {
            String::new()
        };
        crate::blockchain::BlockchainConfig {
            ethereum_rpc_url: self.blockchain.ethereum.rpc_url.clone(),
            bitcoin_rpc_url: self.blockchain.bitcoin.rpc_url.clone(),
            private_chain_rpc: self.blockchain.private_chain.rpc_url.clone(),
            opentimestamps_url,
        }
    }

    /// Derives the storage layer's configuration.
    pub fn get_storage_config(&self) -> (r: crate::storage::StorageConfig)
        ensures
            r.database_path@ == self.storage.database_path@,
            r.ipfs_enabled == self.storage.ipfs.enabled,
            r.ipfs_api_url@ == self.storage.ipfs.api_url@,
            r.backup_enabled == self.storage.backup.enabled,
            r.backup_path@ == self.storage.backup.backup_path@,
            r.compression_enabled == self.encryption.compression_enabled,
    {
        crate::storage::StorageConfig {
            database_path: self.storage.database_path.clone(),
            ipfs_enabled: self.storage.ipfs.enabled,
            ipfs_api_url: self.storage.ipfs.api_url.clone(),
            backup_enabled: self.storage.backup.enabled,
            backup_path: self.storage.backup.backup_path.clone(),
            compression_enabled: self.encryption.compression_enabled,
        }
    }

    /// Derives the verification engine's configuration.
    pub fn get_verification_config(&self) -> (r: crate::verification::VerificationConfig)
        ensures
            r.strict_mode == self.verification.strict_mode,
            r.quantum_verification == self.verification.quantum_verification,
            r.hardware_attestation == self.verification.hardware_attestation,
            crate::verification::assoc_view(r.min_confirmations@) == crate::verification::assoc_view(
                self.verification.min_confirmations@,
            ),
    {
        let mut min_confirmations: Vec<(String, u64)> = Vec::new();
        for i in 0..self.verification.min_confirmations.len()
            invariant
                min_confirmations@.len() == i,
                forall|j: int|
                    0 <= j < i ==> (#[trigger] min_confirmations@[j]).0@
                        == self.verification.min_confirmations@[j].0@ && min_confirmations@[j].1
                        == self.verification.min_confirmations@[j].1,
        {
            let entry = &self.verification.min_confirmations[i];
            min_confirmations.push((entry.0.clone(), entry.1));
        }
        proof {
            assert(crate::verification::assoc_view(min_confirmations@)
                =~= crate::verification::assoc_view(self.verification.min_confirmations@));
        }
        crate::verification::VerificationConfig {
            strict_mode: self.verification.strict_mode,
            quantum_verification: self.verification.quantum_verification,
            hardware_attestation: self.verification.hardware_attestation,
            min_confirmations,
        }
    }
}

impl Default for Config {
    /// The default configuration: local endpoints, strict verification,
    /// hourly key rotation, the quantum layer on, and the standard
    /// minimum confirmations per chain.
    fn default() -> (r: Self)
        ensures
            config_valid(&r),
            r.server.port == 8080,
            r.server.host@ == "0.0.0.0"@,
            r.encryption.key_rotation_interval_seconds == 3600,
            r.encryption.quantum_resistant,
            r.verification.strict_mode,
            crate::verification::assoc_lookup(
                crate::verification::assoc_view(r.verification.min_confirmations@),
                "bitcoin"@,
            ) == Some(6u64),
            crate::verification::assoc_lookup(
                crate::verification::assoc_view(r.verification.min_confirmations@),
                "ethereum"@,
            ) == Some(12u64),
            crate::verification::assoc_lookup(
                crate::verification::assoc_view(r.verification.min_confirmations@),
                "private"@,
            ) == Some(3u64),
    {
        let mut calendar_urls: Vec<String> = Vec::new();
        calendar_urls.push(String::from_str("https://a.calendar.opentimestamps.org"));
        calendar_urls.push(String::from_str("https://b.calendar.opentimestamps.org"));
        let mut fallback_calendars: Vec<String> = Vec::new();
        fallback_calendars.push(String::from_str("https://alice.btc.calendar.opentimestamps.org"));
        fallback_calendars.push(String::from_str("https://bob.btc.calendar.opentimestamps.org"));
        let mut min_confirmations: Vec<(String, u64)> = Vec::new();
        min_confirmations.push((String::from_str("bitcoin"), 6));
        min_confirmations.push((String::from_str("ethereum"), 12));
        min_confirmations.push((String::from_str("private"), 3));
        let r = Config {
            server: ServerConfig {
                host: String::from_str("0.0.0.0"),
                port: 8080,
                max_connections: 1000,
                request_timeout_ms: 30000,
            },
            encryption: EncryptionConfig {
                primary_key_path: String::from_str("keys/primary.key"),
                key_rotation_interval_seconds: 3600,
                quantum_resistant: true,
                hardware_backed: true,
                compression_enabled: true,
            },
            blockchain: BlockchainConfig {
                ethereum: EthereumConfig {
                    rpc_url: String::from_str("https://mainnet.infura.io/v3/YOUR_PROJECT_ID"),
                    contract_address: None,
                    gas_limit: 100000,
                    gas_price_gwei: 20,
                    confirmations_required: 12,
                },
                bitcoin: BitcoinConfig {
                    rpc_url: String::from_str("https://blockstream.info/api"),
                    wallet_name: String::from_str("evidence_wallet"),
                    fee_sat_per_byte: 10,
                    confirmations_required: 6,
                },
                private_chain: PrivateChainConfig {
                    rpc_url: String::from_str("http://localhost:8545"),
                    organization_id: String::from_str("your_org"),
                    consensus_mechanism: String::from_str("raft"),
                },
                opentimestamps: OpenTimestampsConfig {
                    enabled: true,
                    calendar_urls,
                    fallback_calendars,
                },
            },
            storage: StorageConfig {
                database_path: String::from_str("data/blockchain.db"),
                ipfs: IPFSConfig {
                    enabled: true,
                    api_url: String::from_str("http://localhost:5001"),
                    gateway_url: String::from_str("http://localhost:8080"),
                    pin_enabled: true,
                },
                backup: BackupConfig {
                    enabled: true,
                    backup_path: String::from_str("backups"),
                    backup_interval_hours: 24,
                    max_backups: 30,
                },
                retention_days: 2555,
            },
            verification: VerificationConfig {
                strict_mode: true,
                quantum_verification: true,
                hardware_attestation: true,
                min_confirmations,
                evidence_retention_years: 10,
            },
            logging: LoggingConfig {
                level: String::from_str("info"),
                file_path: Some(String::from_str("logs/immutable_encryption.log")),
                max_file_size_mb: 100,
                max_files: 10,
            },
        };
        proof {
            reveal_strlit("keys/primary.key");
            reveal_strlit("https://mainnet.infura.io/v3/YOUR_PROJECT_ID");
            reveal_strlit("https://blockstream.info/api");
            reveal_strlit("data/blockchain.db");
            let mv = crate::verification::assoc_view(r.verification.min_confirmations@);
            assert(mv.len() == 3);
            assert(mv[0] == ("bitcoin"@, 6u64));
            assert(mv[1] == ("ethereum"@, 12u64));
            assert(mv[2] == ("private"@, 3u64));
            assert(mv.drop_first() =~= seq![("ethereum"@, 12u64), ("private"@, 3u64)]);
            assert(mv.drop_first().drop_first() =~= seq![("private"@, 3u64)]);
            reveal_strlit("bitcoin");
            reveal_strlit("ethereum");
            reveal_strlit("private");
            assert("bitcoin"@.len() == 7 && "ethereum"@.len() == 8 && "private"@.len() == 7);
            assert("bitcoin"@[0] == 'b' && "private"@[0] == 'p');
            assert("bitcoin"@ != "ethereum"@ && "bitcoin"@ != "private"@ && "ethereum"@
                != "private"@);
            assert(crate::verification::assoc_lookup(mv, "ethereum"@)
                == crate::verification::assoc_lookup(mv.drop_first(), "ethereum"@));
            assert(crate::verification::assoc_lookup(mv.drop_first(), "ethereum"@) == Some(12u64));
            assert(crate::verification::assoc_lookup(mv, "private"@)
                == crate::verification::assoc_lookup(mv.drop_first(), "private"@));
            assert(crate::verification::assoc_lookup(mv.drop_first(), "private"@)
                == crate::verification::assoc_lookup(mv.drop_first().drop_first(), "private"@));
            assert(crate::verification::assoc_lookup(mv.drop_first().drop_first(), "private"@)
                == Some(3u64));
        }
        r
    }
}

} // verus!
