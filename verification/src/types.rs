//! The values that requests and replies are made of, each with the mathematical value that the
//! contracts speak of.
use vstd::prelude::*;

verus! {

/// An amount of a native denomination.
#[derive(Clone, Debug, PartialEq, Eq)]
pub struct Coin {
    pub denom: String,
    pub amount: u128,
}

/// A coin as a pair of its denomination and its amount.
pub type CoinView = (Seq<char>, u128);

impl View for Coin {
    type V = CoinView;

    open spec fn view(&self) -> CoinView {
        (self.denom@, self.amount)
    }
}

/// A list of coins, each taken by its view.
pub open spec fn coins_view(coins: Seq<Coin>) -> Seq<CoinView> {
    coins.map_values(|coin: Coin| coin@)
}

/// A fixed-point number with 18 fractional digits, held as the number of its smallest units.
#[derive(Clone, Copy, Debug, PartialEq, Eq, Structural)]
pub struct Decimal {
    pub atomics: u128,
}

impl Default for Decimal {
    /// Zero.
    fn default() -> (zero: Self)
        ensures
            zero.atomics == 0,
    {
        Decimal { atomics: 0 }
    }
}

/// Why a request was not answered.
#[derive(Clone, Debug, PartialEq, Eq)]
pub enum SystemError {
    InvalidRequest { error: String, request: Vec<u8> },
    UnsupportedRequest { kind: String },
}

/// A [`SystemError`] with its texts and bytes taken by their views.
pub enum SystemErrorView {
    InvalidRequest { error: Seq<char>, request: Seq<u8> },
    UnsupportedRequest { kind: Seq<char> },
}

impl View for SystemError {
    type V = SystemErrorView;

    open spec fn view(&self) -> SystemErrorView {
        match self {
            SystemError::InvalidRequest { error, request } => SystemErrorView::InvalidRequest {
                error: error@,
                request: request@,
            },
            SystemError::UnsupportedRequest { kind } => SystemErrorView::UnsupportedRequest {
                kind: kind@,
            },
        }
    }
}

/// The outcome of a query: an error of the system, or what the queried party answered, which is
/// the JSON text of its answer or the message of its own error.
pub type QuerierResult = Result<Result<Vec<u8>, String>, SystemError>;

/// A [`QuerierResult`] with its texts and bytes taken by their views.
pub type ReplyView = Result<Result<Seq<u8>, Seq<char>>, SystemErrorView>;

/// The view of a query's outcome.
pub open spec fn reply_view(reply: QuerierResult) -> ReplyView {
    match reply {
        Ok(Ok(data)) => Ok(Ok(data@)),
        Ok(Err(message)) => Ok(Err(message@)),
        Err(error) => Err(error@),
    }
}

/// The view of a query's outcome where the queried party may pass the query on.
pub open spec fn passed_reply_view(reply: Option<QuerierResult>) -> Option<ReplyView> {
    match reply {
        Some(reply) => Some(reply_view(reply)),
        None => None,
    }
}

/// A query of native balances.
#[derive(Clone, Debug, PartialEq, Eq)]
pub enum BankQuery {
    Balance { address: String, denom: String },
    AllBalances { address: String },
}

/// A [`BankQuery`] with its texts taken by their views.
pub enum BankQueryView {
    Balance { address: Seq<char>, denom: Seq<char> },
    AllBalances { address: Seq<char> },
}

impl View for BankQuery {
    type V = BankQueryView;

    open spec fn view(&self) -> BankQueryView {
        match self {
            BankQuery::Balance { address, denom } => BankQueryView::Balance {
                address: address@,
                denom: denom@,
            },
            BankQuery::AllBalances { address } => BankQueryView::AllBalances { address: address@ },
        }
    }
}

/// The module of the chain that a custom query goes to.
#[derive(Clone, Copy, Debug, PartialEq, Eq, Structural)]
pub enum TerraRoute {
    Market,
    Treasury,
    Oracle,
    Wasm,
}

/// What a custom query asks for. Of the queries that are not supported only the kind is kept.
#[derive(Clone, Debug, PartialEq, Eq)]
pub enum TerraQuery {
    Swap,
    TaxRate,
    TaxCap { denom: String },
    ExchangeRates,
    ContractInfo,
}

/// A [`TerraQuery`] with its texts taken by their views.
pub enum TerraQueryView {
    Swap,
    TaxRate,
    TaxCap { denom: Seq<char> },
    ExchangeRates,
    ContractInfo,
}

impl View for TerraQuery {
    type V = TerraQueryView;

    open spec fn view(&self) -> TerraQueryView {
        match self {
            TerraQuery::Swap => TerraQueryView::Swap,
            TerraQuery::TaxRate => TerraQueryView::TaxRate,
            TerraQuery::TaxCap { denom } => TerraQueryView::TaxCap { denom: denom@ },
            TerraQuery::ExchangeRates => TerraQueryView::ExchangeRates,
            TerraQuery::ContractInfo => TerraQueryView::ContractInfo,
        }
    }
}

/// A query as the querier receives it.
#[derive(Clone, Debug, PartialEq, Eq)]
pub enum QueryRequest {
    Bank(BankQuery),
    Custom { route: TerraRoute, query_data: TerraQuery },
    WasmRaw { contract_addr: String, key: Vec<u8> },
    WasmSmart { contract_addr: String, msg: Vec<u8> },
}

/// A [`QueryRequest`] with its parts taken by their views.
pub enum RequestView {
    Bank(BankQueryView),
    Custom { route: TerraRoute, query_data: TerraQueryView },
    WasmRaw { contract_addr: Seq<char>, key: Seq<u8> },
    WasmSmart { contract_addr: Seq<char>, msg: Seq<u8> },
}

impl View for QueryRequest {
    type V = RequestView;

    open spec fn view(&self) -> RequestView {
        match self {
            QueryRequest::Bank(query) => RequestView::Bank(query@),
            QueryRequest::Custom { route, query_data } => RequestView::Custom {
                route: *route,
                query_data: query_data@,
            },
            QueryRequest::WasmRaw { contract_addr, key } => RequestView::WasmRaw {
                contract_addr: contract_addr@,
                key: key@,
            },
            QueryRequest::WasmSmart { contract_addr, msg } => RequestView::WasmSmart {
                contract_addr: contract_addr@,
                msg: msg@,
            },
        }
    }
}

/// An asset that a swap offers or asks for.
#[derive(Clone, Debug, PartialEq, Eq)]
pub enum AssetInfo {
    Token { contract_addr: String },
    NativeToken { denom: String },
}

/// An [`AssetInfo`] with its texts taken by their views.
pub enum AssetInfoView {
    Token { contract_addr: Seq<char> },
    NativeToken { denom: Seq<char> },
}

impl View for AssetInfo {
    type V = AssetInfoView;

    open spec fn view(&self) -> AssetInfoView {
        match self {
            AssetInfo::Token { contract_addr } => AssetInfoView::Token {
                contract_addr: contract_addr@,
            },
            AssetInfo::NativeToken { denom } => AssetInfoView::NativeToken { denom: denom@ },
        }
    }
}

impl AssetInfoView {
    /// The name that the asset is shown by: a token's contract address, a native token's
    /// denomination.
    pub open spec fn name(self) -> Seq<char> {
        match self {
            AssetInfoView::Token { contract_addr } => contract_addr,
            AssetInfoView::NativeToken { denom } => denom,
        }
    }
}

/// One step of a swap.
#[derive(Clone, Debug, PartialEq, Eq)]
pub enum SwapOperation {
    NativeSwap { offer_denom: String, ask_denom: String },
    TerraSwap { offer_asset_info: AssetInfo, ask_asset_info: AssetInfo },
}

/// A [`SwapOperation`] with its parts taken by their views.
pub enum SwapOperationView {
    NativeSwap { offer_denom: Seq<char>, ask_denom: Seq<char> },
    TerraSwap { offer_asset_info: AssetInfoView, ask_asset_info: AssetInfoView },
}

impl View for SwapOperation {
    type V = SwapOperationView;

    open spec fn view(&self) -> SwapOperationView {
        match self {
            SwapOperation::NativeSwap { offer_denom, ask_denom } => SwapOperationView::NativeSwap {
                offer_denom: offer_denom@,
                ask_denom: ask_denom@,
            },
            SwapOperation::TerraSwap { offer_asset_info, ask_asset_info } =>
                SwapOperationView::TerraSwap {
                offer_asset_info: offer_asset_info@,
                ask_asset_info: ask_asset_info@,
            },
        }
    }
}

impl SwapOperationView {
    /// The names of the asset that is offered and of the one that is asked for.
    pub open spec fn pair(self) -> (Seq<char>, Seq<char>) {
        match self {
            SwapOperationView::NativeSwap { offer_denom, ask_denom } => (offer_denom, ask_denom),
            SwapOperationView::TerraSwap { offer_asset_info, ask_asset_info } => (
                offer_asset_info.name(),
                ask_asset_info.name(),
            ),
        }
    }
}

/// A list of swap steps, each taken by its view.
pub open spec fn operations_view(operations: Seq<SwapOperation>) -> Seq<SwapOperationView> {
    operations.map_values(|operation: SwapOperation| operation@)
}

/// A message to the swap router.
#[derive(Clone, Debug, PartialEq, Eq)]
pub enum RouterMsg {
    Config,
    SimulateSwapOperations { offer_amount: u128, operations: Vec<SwapOperation> },
}

/// A [`RouterMsg`] with its parts taken by their views.
pub enum RouterMsgView {
    Config,
    SimulateSwapOperations { offer_amount: u128, operations: Seq<SwapOperationView> },
}

impl View for RouterMsg {
    type V = RouterMsgView;

    open spec fn view(&self) -> RouterMsgView {
        match self {
            RouterMsg::Config => RouterMsgView::Config,
            RouterMsg::SimulateSwapOperations { offer_amount, operations } =>
                RouterMsgView::SimulateSwapOperations {
                offer_amount: *offer_amount,
                operations: operations_view(operations@),
            },
        }
    }
}

/// A message to a token contract. Of the messages that are not supported only the kind is kept.
#[derive(Clone, Debug, PartialEq, Eq)]
pub enum Cw20Msg {
    Balance { address: String },
    TokenInfo,
    Allowance,
    Minter,
    MarketingInfo,
    DownloadLogo,
    AllAllowances,
    AllAccounts,
}

/// A [`Cw20Msg`] with its texts taken by their views.
pub enum Cw20MsgView {
    Balance { address: Seq<char> },
    TokenInfo,
    Allowance,
    Minter,
    MarketingInfo,
    DownloadLogo,
    AllAllowances,
    AllAccounts,
}

impl View for Cw20Msg {
    type V = Cw20MsgView;

    open spec fn view(&self) -> Cw20MsgView {
        match self {
            Cw20Msg::Balance { address } => Cw20MsgView::Balance { address: address@ },
            Cw20Msg::TokenInfo => Cw20MsgView::TokenInfo,
            Cw20Msg::Allowance => Cw20MsgView::Allowance,
            Cw20Msg::Minter => Cw20MsgView::Minter,
            Cw20Msg::MarketingInfo => Cw20MsgView::MarketingInfo,
            Cw20Msg::DownloadLogo => Cw20MsgView::DownloadLogo,
            Cw20Msg::AllAllowances => Cw20MsgView::AllAllowances,
            Cw20Msg::AllAccounts => Cw20MsgView::AllAccounts,
        }
    }
}

/// The view of what was read of a request.
pub open spec fn request_view(request: Option<QueryRequest>) -> Option<RequestView> {
    match request {
        Some(request) => Some(request@),
        None => None,
    }
}

/// The view of what was read of a message to the router.
pub open spec fn router_msg_view(msg: Option<RouterMsg>) -> Option<RouterMsgView> {
    match msg {
        Some(msg) => Some(msg@),
        None => None,
    }
}

/// The view of what was read of a message to a token contract.
pub open spec fn cw20_msg_view(msg: Option<Cw20Msg>) -> Option<Cw20MsgView> {
    match msg {
        Some(msg) => Some(msg@),
        None => None,
    }
}

/// The view of an address that may be missing.
pub open spec fn address_view(address: Option<String>) -> Option<Seq<char>> {
    match address {
        Some(address) => Some(address@),
        None => None,
    }
}

} // verus!
