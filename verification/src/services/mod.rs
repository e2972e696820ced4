pub mod auto_categorize;
pub mod kream_rules;
pub mod transaction_scope;
