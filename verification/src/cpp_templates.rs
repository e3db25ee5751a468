//! The texts that the C++ half of an interface is made of. `$0`, `$1`, ... stand
//! for what is filled in.

use vstd::prelude::*;

verus! {

/// Throws where Rust has panicked. $0: what detects a panic; $1: the namespace.
pub const PANIC_HANDLER: &'static str = r#"
            if ($0()) {
                throw ::$1::Panic{};
            }
            "#;

/// A method, as a function that takes its receiver first. $0: the output; $1: the name;
/// $2: the inputs; $3: what gives the inputs up; $4: the link name; $5: the inputs as
/// pointers; $6: the namespace; $7: what handles a panic.
pub const METHOD: &'static str = r#"
    inline $0 $1 ($2) noexcept {
      $0 o{};
      $3
      $4 (
        $5
        ::$6::__zngur_internal_data_ptr(o)
      );
      $7
      ::$6::__zngur_internal_assume_init(o);
      return o;
    }
"#;

/// A method on a field. $0: the output; $1: the namespace; $2: the kind of field; $3: the
/// type; $4: the name; $5: the inputs; $6: the method; $7: the inputs, moved.
pub const FIELD_METHOD: &'static str = r#"
        template<typename Offset, typename... Offsets>
        inline $0 $1::$2< $3, Offset, Offsets... >::$4(
            $5
        ) const noexcept {
          return $6(
            *this
            $7
          );
        }
"#;

/// A method on a reference. The arguments are those of a method on a field.
pub const REF_METHOD: &'static str = r#"
        inline $0 $1::$2< $3 >::$4(
            $5
        ) const noexcept {
          return $6(
            *this
            $7
          );
        }
"#;

/// A method on a value. $0: the output; $1: the method; $2: the inputs; $3: `const` or
/// nothing; $4: the receiver; $5: the inputs, moved.
pub const OWNED_METHOD: &'static str = r#"
      inline $0 $1(
            $2
      ) $3 noexcept {
        return $1(
          $4
          $5
        );
      }
"#;

/// Makes a boxed closure. $0: its type; $1: the C++ closure; $2: the namespace; $3: the
/// link name; $4: the inputs as pointers; $5: the output; $6: the inputs, taken from
/// Rust.
pub const BOX_FROM_CLOSURE: &'static str = r#"
    inline $0 $0::make_box($1 f) {
      auto __zngur_data = new $1(f);
      $0 o;
      ::$2::__zngur_internal_assume_init(o);
      $3 (
        reinterpret_cast<uint8_t*>(__zngur_data),
        [](uint8_t *d) { delete reinterpret_cast< $1*>(d); },
        [](uint8_t *d, $4 uint8_t* o) {
          auto dd = reinterpret_cast< $1 *>(d);
          $5 oo = (*dd)($6);
          ::$2::__zngur_internal_move_to_rust< $5 >(o, oo);
        },
        ::$2::__zngur_internal_data_ptr(o)
      );
      return o;
    }
"#;

/// Makes a boxed trait object. $0: its type; $1: the C++ class of the trait; $2: the
/// namespace; $3: the link name.
pub const BOX_FROM_IMPL: &'static str = r#"
    template <typename T, typename... Args>
    $0 $0::make_box(Args&&... args) {
      auto __zngur_data = new T(::std::forward<Args>(args)...);
      auto data_as_impl = dynamic_cast< $1*>(__zngur_data);
      $0 o;
      ::$2::__zngur_internal_assume_init(o);
      $3 (
        reinterpret_cast<uint8_t*>(data_as_impl),
        [](uint8_t *d) { delete reinterpret_cast< $1*>(d); },
        ::$2::__zngur_internal_data_ptr(o)
      );
      return o;
    }
"#;

/// Makes a reference to a trait object. $0: the namespace; $1: the kind of reference; $2:
/// the type; $3: the C++ class of the trait; $4: the link name.
pub const REF_FROM_IMPL: &'static str = r#"
      $0::$1< $2 >::$1($3& args) {
        auto data_as_impl = &args;
        ::$0::__zngur_internal_assume_init(*this);
        $4(
          (uint8_t *)data_as_impl,
          ::$0::__zngur_internal_data_ptr(*this)
        );
      }
"#;

/// A function. $0: opens the namespaces; $1: the output; $2: the name; $3: the inputs;
/// $4: what gives the inputs up; $5: the link name; $6: the inputs as pointers; $7: the
/// namespace; $8: what handles a panic; $9: closes the namespaces.
pub const FUNCTION: &'static str = r#"
$0
    inline $1 $2($3) noexcept {
      $1 o{};
      $4
      $5 (
        $6
        ::$7::__zngur_internal_data_ptr(o)
      );
      $8
      ::$7::__zngur_internal_assume_init(o);
      return o;
    }
$9
"#;

/// The head of an implementation block. $0: the type; $1: the trait.
pub const IMPL_OPEN: &'static str = r#"
  template<>
  class Impl< $0, $1 > {
    public:
"#;

/// A method of an implementation block. $0: the output; $1: the name; $2: the inputs.
pub const IMPL_METHOD: &'static str = r#"
        static $0 $1(
          $2
        );
"#;

} // verus!
