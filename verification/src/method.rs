//! The methods of the management canister that routing knows.

use vstd::prelude::*;
use crate::text::str_eq;

verus! {

/// A method of the management canister.
#[derive(Clone, Copy, Debug, PartialEq, Eq, Hash, Structural)]
pub enum Method {
    /// Asks for the status of a canister.
    CanisterStatus,
    /// Creates a canister.
    CreateCanister,
    /// Deletes a canister.
    DeleteCanister,
    /// Deposits cycles into a canister.
    DepositCycles,
    /// Makes an HTTP request to the outside.
    HttpRequest,
    /// Asks for the public key of a threshold ECDSA key.
    ECDSAPublicKey,
    /// Installs code into a canister.
    InstallCode,
    /// Asks for random bytes.
    RawRand,
    /// Changes the controller of a canister.
    SetController,
    /// Sets up the first distributed key generation of a new subnet.
    SetupInitialDKG,
    /// Asks for a signature with a threshold ECDSA key.
    SignWithECDSA,
    /// Starts a canister.
    StartCanister,
    /// Stops a canister.
    StopCanister,
    /// Removes the code of a canister.
    UninstallCode,
    /// Changes the settings of a canister.
    UpdateSettings,
    /// Computes the first dealings of a threshold ECDSA key for a subnet.
    ComputeInitialEcdsaDealings,
    /// Asks for the balance of a Bitcoin address.
    BitcoinGetBalance,
    /// Asks for the unspent outputs of a Bitcoin address.
    BitcoinGetUtxos,
    /// Sends a Bitcoin transaction.
    BitcoinSendTransaction,
    /// Asks for the current Bitcoin fee percentiles.
    BitcoinGetCurrentFeePercentiles,
    /// Hands a Bitcoin transaction to the adapter of the own subnet.
    BitcoinSendTransactionInternal,
    /// Asks the adapter of the own subnet for the blocks that follow a block.
    BitcoinGetSuccessors,
    /// Creates a canister with cycles, on a test network.
    ProvisionalCreateCanisterWithCycles,
    /// Adds cycles to a canister, on a test network.
    ProvisionalTopUpCanister,
}

impl Method {
    /// The name under which the method is called.
    pub open spec fn name_spec(self) -> Seq<char> {
        match self {
            Method::CanisterStatus => "canister_status"@,
            Method::CreateCanister => "create_canister"@,
            Method::DeleteCanister => "delete_canister"@,
            Method::DepositCycles => "deposit_cycles"@,
            Method::HttpRequest => "http_request"@,
            Method::ECDSAPublicKey => "ecdsa_public_key"@,
            Method::InstallCode => "install_code"@,
            Method::RawRand => "raw_rand"@,
            Method::SetController => "set_controller"@,
            Method::SetupInitialDKG => "setup_initial_dkg"@,
            Method::SignWithECDSA => "sign_with_ecdsa"@,
            Method::StartCanister => "start_canister"@,
            Method::StopCanister => "stop_canister"@,
            Method::UninstallCode => "uninstall_code"@,
            Method::UpdateSettings => "update_settings"@,
            Method::ComputeInitialEcdsaDealings => "compute_initial_ecdsa_dealings"@,
            Method::BitcoinGetBalance => "bitcoin_get_balance"@,
            Method::BitcoinGetUtxos => "bitcoin_get_utxos"@,
            Method::BitcoinSendTransaction => "bitcoin_send_transaction"@,
            Method::BitcoinGetCurrentFeePercentiles => "bitcoin_get_current_fee_percentiles"@,
            Method::BitcoinSendTransactionInternal => "bitcoin_send_transaction_internal"@,
            Method::BitcoinGetSuccessors => "bitcoin_get_successors"@,
            Method::ProvisionalCreateCanisterWithCycles => "provisional_create_canister_with_cycles"@,
            Method::ProvisionalTopUpCanister => "provisional_top_up_canister"@,
        }
    }

    /// The name under which the method is called.
    pub fn name(&self) -> (name: &'static str)
        ensures
            name@ == self.name_spec(),
    {
        match self {
            Method::CanisterStatus => "canister_status",
            Method::CreateCanister => "create_canister",
            Method::DeleteCanister => "delete_canister",
            Method::DepositCycles => "deposit_cycles",
            Method::HttpRequest => "http_request",
            Method::ECDSAPublicKey => "ecdsa_public_key",
            Method::InstallCode => "install_code",
            Method::RawRand => "raw_rand",
            Method::SetController => "set_controller",
            Method::SetupInitialDKG => "setup_initial_dkg",
            Method::SignWithECDSA => "sign_with_ecdsa",
            Method::StartCanister => "start_canister",
            Method::StopCanister => "stop_canister",
            Method::UninstallCode => "uninstall_code",
            Method::UpdateSettings => "update_settings",
            Method::ComputeInitialEcdsaDealings => "compute_initial_ecdsa_dealings",
            Method::BitcoinGetBalance => "bitcoin_get_balance",
            Method::BitcoinGetUtxos => "bitcoin_get_utxos",
            Method::BitcoinSendTransaction => "bitcoin_send_transaction",
            Method::BitcoinGetCurrentFeePercentiles => "bitcoin_get_current_fee_percentiles",
            Method::BitcoinSendTransactionInternal => "bitcoin_send_transaction_internal",
            Method::BitcoinGetSuccessors => "bitcoin_get_successors",
            Method::ProvisionalCreateCanisterWithCycles => "provisional_create_canister_with_cycles",
            Method::ProvisionalTopUpCanister => "provisional_top_up_canister",
        }
    }

    /// The method that is called under `name`, if there is one.
    pub fn from_name(name: &str) -> (method: Option<Method>)
        ensures
            match method {
                Some(m) => name@ == m.name_spec(),
                None => forall|m: Method| name@ != #[trigger] m.name_spec(),
            },
    {
        if str_eq(name, "canister_status") {
            Some(Method::CanisterStatus)
        } else if str_eq(name, "create_canister") {
            Some(Method::CreateCanister)
        } else if str_eq(name, "delete_canister") {
            Some(Method::DeleteCanister)
        } else if str_eq(name, "deposit_cycles") {
            Some(Method::DepositCycles)
        } else if str_eq(name, "http_request") {
            Some(Method::HttpRequest)
        } else if str_eq(name, "ecdsa_public_key") {
            Some(Method::ECDSAPublicKey)
        } else if str_eq(name, "install_code") {
            Some(Method::InstallCode)
        } else if str_eq(name, "raw_rand") {
            Some(Method::RawRand)
        } else if str_eq(name, "set_controller") {
            Some(Method::SetController)
        } else if str_eq(name, "setup_initial_dkg") {
            Some(Method::SetupInitialDKG)
        } else if str_eq(name, "sign_with_ecdsa") {
            Some(Method::SignWithECDSA)
        } else if str_eq(name, "start_canister") {
            Some(Method::StartCanister)
        } else if str_eq(name, "stop_canister") {
            Some(Method::StopCanister)
        } else if str_eq(name, "uninstall_code") {
            Some(Method::UninstallCode)
        } else if str_eq(name, "update_settings") {
            Some(Method::UpdateSettings)
        } else if str_eq(name, "compute_initial_ecdsa_dealings") {
            Some(Method::ComputeInitialEcdsaDealings)
        } else if str_eq(name, "bitcoin_get_balance") {
            Some(Method::BitcoinGetBalance)
        } else if str_eq(name, "bitcoin_get_utxos") {
            Some(Method::BitcoinGetUtxos)
        } else if str_eq(name, "bitcoin_send_transaction") {
            Some(Method::BitcoinSendTransaction)
        } else if str_eq(name, "bitcoin_get_current_fee_percentiles") {
            Some(Method::BitcoinGetCurrentFeePercentiles)
        } else if str_eq(name, "bitcoin_send_transaction_internal") {
            Some(Method::BitcoinSendTransactionInternal)
        } else if str_eq(name, "bitcoin_get_successors") {
            Some(Method::BitcoinGetSuccessors)
        } else if str_eq(name, "provisional_create_canister_with_cycles") {
            Some(Method::ProvisionalCreateCanisterWithCycles)
        } else if str_eq(name, "provisional_top_up_canister") {
            Some(Method::ProvisionalTopUpCanister)
        } else {
            None
        }
    }
}

/// No two methods are called under the same name.
pub proof fn lemma_names_distinct(a: Method, b: Method)
    requires
        a.name_spec() == b.name_spec(),
    ensures
        a == b,
{
    let x = a.name_spec();
    let y = b.name_spec();
    assert(x.len() == y.len() && x[0] == y[0] && x[1] == y[1]);
    reveal_strlit("canister_status");
    reveal_strlit("create_canister");
    reveal_strlit("delete_canister");
    reveal_strlit("deposit_cycles");
    reveal_strlit("http_request");
    reveal_strlit("ecdsa_public_key");
    reveal_strlit("install_code");
    reveal_strlit("raw_rand");
    reveal_strlit("set_controller");
    reveal_strlit("setup_initial_dkg");
    reveal_strlit("sign_with_ecdsa");
    reveal_strlit("start_canister");
    reveal_strlit("stop_canister");
    reveal_strlit("uninstall_code");
    reveal_strlit("update_settings");
    reveal_strlit("compute_initial_ecdsa_dealings");
    reveal_strlit("bitcoin_get_balance");
    reveal_strlit("bitcoin_get_utxos");
    reveal_strlit("bitcoin_send_transaction");
    reveal_strlit("bitcoin_get_current_fee_percentiles");
    reveal_strlit("bitcoin_send_transaction_internal");
    reveal_strlit("bitcoin_get_successors");
    reveal_strlit("provisional_create_canister_with_cycles");
    reveal_strlit("provisional_top_up_canister");
}

} // verus!
