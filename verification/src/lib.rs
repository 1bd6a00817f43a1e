pub mod assoc;
pub mod ast;
pub mod text;
pub mod lexer;
pub mod traits;
pub mod diagnostics;
pub mod parser;
pub mod semantics;
pub mod irgenerator;
pub mod irlaws;
pub mod labellaws;
pub mod klir_text;
pub mod backend;
pub mod backendlaws;
pub mod asmlaws;
pub mod flowlaws;
pub mod lexlaws;
pub mod compiler;
pub mod laws;
pub mod semalaws;
pub mod parserlaws;
pub mod paramlaws;
