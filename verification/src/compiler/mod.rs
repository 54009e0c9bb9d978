pub mod c_transpiler;
